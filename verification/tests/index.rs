use mnemonai::conversation_index::{
    attach_search_cache, cached_at, fingerprint_from_metadata, index_dir, index_entry, load_provider_cache,
    millis_to_local, optional_path, provider_key, row_from_conversation, rows_to_save,
    system_time_to_millis, time_told, CachedFileConversation, IndexEntry, IndexRow, ProviderCache,
    SourceFingerprint, CREATE_TABLE_SQL, DELETE_SQL, INSERT_SQL, SCHEMA_VERSION, SELECT_SQL,
};
use mnemonai::history::{Conversation, ParseError, ProviderKind, ToolName};
use mnemonai::time::Timestamp;
use rusqlite::types::Value;
use rusqlite::{params_from_iter, Connection, Row};

fn tool() -> ToolName {
    ToolName { label: "Tool".to_string(), command: "tool".to_string() }
}

fn make_conversation(path: &str) -> Conversation {
    Conversation {
        path: path.to_string(),
        index: 0,
        provider: ProviderKind::Claude,
        id: "session-1".to_string(),
        timestamp: Timestamp { secs: 1_767_225_600, nanos: 250_000_000, offset: 7200 },
        preview: "Hello Cache".to_string(),
        full_text: "Hello Cache Body".to_string(),
        project_name: Some("project".to_string()),
        project_path: None,
        cwd: None,
        message_count: 1,
        parse_errors: Vec::new(),
        summary: None,
        model: None,
        total_tokens: 0,
        duration_minutes: None,
        first_message_time: None,
        last_message_time: None,
        search_text_lower: None,
        search_topic_end: None,
    }
}

fn attach(conversation: &mut Conversation) {
    attach_search_cache(conversation, |text: &str| text.to_lowercase(), |text: &str| text.len());
}

fn errors_to_json(errors: &[ParseError]) -> String {
    let list: Vec<serde_json::Value> = errors
        .iter()
        .map(|e| {
            let mut object = serde_json::Map::new();
            object.insert("line_number".to_string(), serde_json::Value::from(e.line_number));
            object.insert(
                "line_content".to_string(),
                serde_json::Value::from(e.line_content.clone()),
            );
            object.insert(
                "error_message".to_string(),
                serde_json::Value::from(e.error_message.clone()),
            );
            object.insert(
                "context_before".to_string(),
                serde_json::Value::from(e.context_before.clone()),
            );
            object.insert(
                "context_after".to_string(),
                serde_json::Value::from(e.context_after.clone()),
            );
            serde_json::Value::Object(object)
        })
        .collect();
    serde_json::to_string(&list).unwrap()
}

fn texts_of(value: &serde_json::Value) -> Vec<String> {
    value.as_array().unwrap().iter().map(|t| t.as_str().unwrap().to_string()).collect()
}

fn errors_from_json(json: &str) -> Vec<ParseError> {
    let list: Vec<serde_json::Value> = serde_json::from_str(json).unwrap();
    list.iter()
        .map(|e| ParseError {
            line_number: e["line_number"].as_u64().unwrap() as usize,
            line_content: e["line_content"].as_str().unwrap().to_string(),
            error_message: e["error_message"].as_str().unwrap().to_string(),
            context_before: texts_of(&e["context_before"]),
            context_after: texts_of(&e["context_after"]),
        })
        .collect()
}

fn text(value: &Option<String>) -> Value {
    match value {
        Some(t) => Value::Text(t.clone()),
        None => Value::Null,
    }
}

fn number(value: Option<i64>) -> Value {
    match value {
        Some(n) => Value::Integer(n),
        None => Value::Null,
    }
}

fn save(
    conn: &Connection,
    provider: ProviderKind,
    show_last: bool,
    conversation: &Conversation,
    fingerprint: SourceFingerprint,
) {
    let errors_json = errors_to_json(&conversation.parse_errors);
    let row = row_from_conversation(conversation, fingerprint, errors_json, 0).unwrap();
    let values = vec![
        Value::Integer(SCHEMA_VERSION),
        Value::Text(provider_key(provider, &tool()).to_string()),
        Value::Integer(i64::from(show_last)),
        Value::Text(row.source_path),
        Value::Integer(row.source_mtime_millis),
        Value::Integer(row.source_size),
        Value::Text(row.id),
        Value::Text(row.timestamp),
        Value::Text(row.preview),
        Value::Text(row.full_text),
        Value::Text(row.search_text_lower),
        Value::Integer(row.search_topic_end),
        text(&row.project_name),
        text(&row.project_path),
        text(&row.cwd),
        Value::Integer(row.message_count),
        Value::Text(row.parse_errors_json),
        text(&row.summary),
        text(&row.model),
        Value::Integer(row.total_tokens),
        number(row.duration_minutes),
        number(row.first_message_millis),
        number(row.last_message_millis),
    ];
    conn.execute(INSERT_SQL, params_from_iter(values)).unwrap();
}

fn read_row(row: &Row) -> rusqlite::Result<IndexRow> {
    Ok(IndexRow {
        source_path: row.get(0)?,
        source_mtime_millis: row.get(1)?,
        source_size: row.get(2)?,
        id: row.get(3)?,
        timestamp: row.get(4)?,
        preview: row.get(5)?,
        full_text: row.get(6)?,
        search_text_lower: row.get(7)?,
        search_topic_end: row.get(8)?,
        project_name: row.get(9)?,
        project_path: row.get(10)?,
        cwd: row.get(11)?,
        message_count: row.get(12)?,
        parse_errors_json: row.get(13)?,
        summary: row.get(14)?,
        model: row.get(15)?,
        total_tokens: row.get(16)?,
        duration_minutes: row.get(17)?,
        first_message_millis: row.get(18)?,
        last_message_millis: row.get(19)?,
    })
}

fn load(conn: &Connection, provider: ProviderKind, show_last: bool) -> ProviderCache {
    let mut stmt = conn.prepare(SELECT_SQL).unwrap();
    let values = vec![
        Value::Integer(SCHEMA_VERSION),
        Value::Text(provider_key(provider, &tool()).to_string()),
        Value::Integer(i64::from(show_last)),
    ];
    let rows: Vec<(IndexRow, Vec<ParseError>)> = stmt
        .query_map(params_from_iter(values), read_row)
        .unwrap()
        .map(|row| {
            let row = row.unwrap();
            let errors = errors_from_json(&row.parse_errors_json);
            (row, errors)
        })
        .collect();
    load_provider_cache(provider, rows)
}

fn open() -> Connection {
    let conn = Connection::open_in_memory().unwrap();
    conn.execute_batch(CREATE_TABLE_SQL).unwrap();
    conn
}

#[test]
fn attach_search_cache_populates_lowercase_text() {
    let mut conversation = make_conversation("/tmp/session.jsonl");

    attach(&mut conversation);

    assert_eq!(conversation.search_text_lower.as_deref(), Some("hello cache body"));
    assert_eq!(conversation.search_topic_end, Some("hello cache body".len()));
}

#[test]
fn load_cache_round_trips_conversation() {
    let conn = open();
    let mut conversation = make_conversation("/tmp/session.jsonl");
    conversation.parse_errors.push(ParseError {
        line_number: 7,
        line_content: "{bad json".to_string(),
        error_message: "expected value".to_string(),
        context_before: vec!["before".to_string()],
        context_after: vec!["after".to_string()],
    });
    attach(&mut conversation);
    let fingerprint = SourceFingerprint { modified_millis: 123, size: 456 };

    save(&conn, ProviderKind::Claude, false, &conversation, fingerprint);

    let cache = load(&conn, ProviderKind::Claude, false);
    let cached = cache.get(&conversation.path).unwrap();
    let loaded = cached.conversation_if_fresh(fingerprint).unwrap();

    assert_eq!(loaded.id, "session-1");
    assert_eq!(loaded.parse_errors.len(), 1);
    assert_eq!(loaded.parse_errors[0].line_number, 7);
    assert_eq!(loaded.search_text_lower.as_deref(), Some("hello cache body"));
    assert!(cached
        .conversation_if_fresh(SourceFingerprint { modified_millis: 999, size: 456 })
        .is_none());
}

#[test]
fn delete_conversation_removes_cached_rows_for_all_preview_modes() {
    let conn = open();
    let mut conversation = make_conversation("/tmp/session.jsonl");
    attach(&mut conversation);
    let fingerprint = SourceFingerprint { modified_millis: 123, size: 456 };

    save(&conn, ProviderKind::Claude, false, &conversation, fingerprint);
    save(&conn, ProviderKind::Claude, true, &conversation, fingerprint);
    assert_eq!(load(&conn, ProviderKind::Claude, true).len(), 1);

    let values = vec![
        Value::Text(provider_key(ProviderKind::Claude, &tool()).to_string()),
        Value::Text(conversation.path.clone()),
    ];
    conn.execute(DELETE_SQL, params_from_iter(values)).unwrap();

    assert!(load(&conn, ProviderKind::Claude, false).is_empty());
    assert!(load(&conn, ProviderKind::Claude, true).is_empty());
}

#[test]
fn every_field_comes_back_from_the_database() {
    let conn = open();
    let mut c = make_conversation("/p/a b.jsonl");
    c.project_path = Some("/code/p".to_string());
    c.cwd = Some("/code".to_string());
    c.message_count = 12;
    c.summary = Some("sum".to_string());
    c.model = Some("model-x".to_string());
    c.total_tokens = 9_000;
    c.duration_minutes = Some(61);
    c.first_message_time = Some(Timestamp { secs: 10, nanos: 5_000_000, offset: 0 });
    c.last_message_time = Some(Timestamp { secs: -1, nanos: 999_000_000, offset: 60 });
    attach(&mut c);
    let fingerprint = SourceFingerprint { modified_millis: 1, size: 2 };
    save(&conn, ProviderKind::Cursor, true, &c, fingerprint);

    assert!(load(&conn, ProviderKind::Claude, true).is_empty());
    let cache = load(&conn, ProviderKind::Cursor, true);
    let back = cache.get("/p/a b.jsonl").unwrap().conversation_if_fresh(fingerprint).unwrap();
    assert_eq!(back.path, c.path);
    assert_eq!(back.index, 0);
    assert_eq!(back.provider, ProviderKind::Cursor);
    assert_eq!((back.timestamp.secs, back.timestamp.nanos), (1_767_225_600, 250_000_000));
    assert_eq!(back.preview, c.preview);
    assert_eq!(back.full_text, c.full_text);
    assert_eq!(back.project_name, c.project_name);
    assert_eq!(back.project_path, c.project_path);
    assert_eq!(back.cwd, c.cwd);
    assert_eq!(back.message_count, 12);
    assert_eq!(back.summary, c.summary);
    assert_eq!(back.model, c.model);
    assert_eq!(back.total_tokens, 9_000);
    assert_eq!(back.duration_minutes, Some(61));
    let first = back.first_message_time.unwrap();
    assert_eq!((first.secs, first.nanos), (10, 5_000_000));
    let last = back.last_message_time.unwrap();
    assert_eq!((last.secs, last.nanos), (-1, 999_000_000));
    assert_eq!(back.search_topic_end, Some(16));
}

#[test]
fn a_later_row_for_a_path_counts() {
    let old = SourceFingerprint { modified_millis: 1, size: 1 };
    let new = SourceFingerprint { modified_millis: 2, size: 1 };
    let mut c = make_conversation("/a.jsonl");
    attach(&mut c);
    let first = row_from_conversation(&c, old, "[]".to_string(), 0).unwrap();
    c.path = "/./a.jsonl".to_string();
    let second = row_from_conversation(&c, new, "[]".to_string(), 0).unwrap();
    let cache =
        load_provider_cache(ProviderKind::Claude, vec![(first, Vec::new()), (second, Vec::new())]);
    let found = cache.get("/a.jsonl").unwrap();
    assert!(found.conversation_if_fresh(old).is_none());
    assert!(found.conversation_if_fresh(new).is_some());
    assert!(cache.get("/b.jsonl").is_none());
}

#[test]
fn rows_are_written_for_searchable_conversations_only() {
    let fingerprint = SourceFingerprint { modified_millis: 1, size: 1 };
    let bare = make_conversation("/bare.jsonl");
    let mut ready = make_conversation("/ready.jsonl");
    ready.search_text_lower = Some("text".to_string());
    assert!(row_from_conversation(&bare, fingerprint, "[]".to_string(), 3).is_none());
    let entries = vec![
        IndexEntry {
            conversation: bare,
            fingerprint,
            errors_json: "[]".to_string(),
            topic_end: 3,
        },
        IndexEntry {
            conversation: ready,
            fingerprint,
            errors_json: "[]".to_string(),
            topic_end: 3,
        },
    ];
    let rows = rows_to_save(entries);
    assert_eq!(rows.len(), 1);
    assert_eq!(rows[0].source_path, "/ready.jsonl");
    assert_eq!(rows[0].search_topic_end, 3);
    assert_eq!(rows[0].timestamp, "2026-01-01T02:00:00.250+02:00");
}

#[test]
fn attaching_keeps_what_is_there() {
    let mut c = make_conversation("/a.jsonl");
    c.search_text_lower = Some("kept".to_string());
    attach_search_cache(&mut c, |_: &str| "other".to_string(), |text: &str| text.len());
    assert_eq!(c.search_text_lower.as_deref(), Some("kept"));
    assert_eq!(c.search_topic_end, Some(4));
    attach_search_cache(&mut c, |_: &str| "third".to_string(), |_: &str| 9);
    assert_eq!(c.search_text_lower.as_deref(), Some("kept"));
    assert_eq!(c.search_topic_end, Some(4));
}

#[test]
fn entries_ask_for_a_missing_topic_end() {
    let fingerprint = SourceFingerprint { modified_millis: 1, size: 1 };
    let entry = |c: Conversation| {
        index_entry(c, fingerprint, "[]".to_string(), |text: &str| text.len()).topic_end
    };
    let mut c = make_conversation("/a.jsonl");
    assert_eq!(entry(c.clone()), 0);
    c.search_text_lower = Some("texts".to_string());
    assert_eq!(entry(c.clone()), 5);
    c.search_topic_end = Some(3);
    assert_eq!(entry(c), 3);
}

#[test]
fn odd_numbers_in_a_row_are_mended() {
    let mut c = make_conversation("/a.jsonl");
    attach(&mut c);
    let fingerprint = SourceFingerprint { modified_millis: 1, size: 1 };
    let mut row = row_from_conversation(&c, fingerprint, "[]".to_string(), 0).unwrap();
    row.search_topic_end = -4;
    row.message_count = -1;
    row.total_tokens = -9;
    row.duration_minutes = Some(-2);
    row.first_message_millis = Some(i64::MAX);
    row.project_path = Some(String::new());
    let stamp = Timestamp { secs: 5, nanos: 0, offset: 0 };
    let back = cached_at(ProviderKind::Claude, row, Vec::new(), stamp)
        .conversation_if_fresh(fingerprint)
        .unwrap();
    assert_eq!(back.timestamp, stamp);
    assert_eq!(back.search_topic_end, Some(0));
    assert_eq!(back.message_count, 0);
    assert_eq!(back.total_tokens, 0);
    assert_eq!(back.duration_minutes, Some(0));
    assert_eq!(back.first_message_time, None);
    assert_eq!(back.project_path, None);
}

#[test]
fn numbers_too_large_for_the_database_are_cut() {
    let mut c = make_conversation("/a.jsonl");
    attach(&mut c);
    c.total_tokens = u64::MAX;
    c.duration_minutes = Some(u64::MAX);
    let fingerprint = SourceFingerprint { modified_millis: 1, size: 1 };
    let row = row_from_conversation(&c, fingerprint, "[]".to_string(), 0).unwrap();
    assert_eq!(row.total_tokens, i64::MAX);
    assert_eq!(row.duration_minutes, Some(i64::MAX));
}

#[test]
fn fingerprints() {
    assert_eq!(system_time_to_millis(Some(1_500)), 1_500);
    assert_eq!(system_time_to_millis(Some(u128::MAX)), i64::MAX);
    assert_eq!(system_time_to_millis(None), 0);
    let f = fingerprint_from_metadata(Some(77), u64::MAX);
    assert_eq!(f, SourceFingerprint { modified_millis: 77, size: i64::MAX });
    let cached = CachedFileConversation::new(f, make_conversation("/x"));
    assert_eq!(cached.conversation_if_fresh(f).unwrap().path, "/x");
    let longer = SourceFingerprint { modified_millis: 77, size: 1 };
    assert!(cached.conversation_if_fresh(longer).is_none());
}

#[test]
fn keys_paths_and_times() {
    assert_eq!(provider_key(ProviderKind::Claude, &tool()), "tool");
    assert_eq!(provider_key(ProviderKind::Cursor, &tool()), "cursor");
    assert_eq!(provider_key(ProviderKind::CursorAgent, &tool()), "cursor-agent");
    assert_eq!(optional_path(Some(String::new())), None);
    assert_eq!(optional_path(Some("/a".to_string())), Some("/a".to_string()));
    assert_eq!(optional_path(None), None);
    assert_eq!(index_dir("/home/me"), "/home/me/.local/state/mnemonai");
    let t = millis_to_local(-1).unwrap();
    assert_eq!((t.secs, t.nanos), (-1, 999_000_000));
    assert!(millis_to_local(i64::MIN).is_none());
    let told = time_told("2026-01-01T02:00:00.5+02:00");
    assert_eq!((told.secs, told.nanos), (1_767_225_600, 500_000_000));
    assert!(time_told("some day").secs > 1_600_000_000);
}
