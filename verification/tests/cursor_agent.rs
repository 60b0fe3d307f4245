use mnemonai::conversation_index::{
    load_provider_cache, row_from_conversation, SourceFingerprint,
};
use mnemonai::error::AppError;
use mnemonai::history::{ContentBlock, Conversation, LogEntry, ProviderKind};
use mnemonai::providers::cursor_agent::{
    activity_time, block_to_content_block, build_resume_command, collect_transcript_files,
    conversation_from, extract_project_dir_name, extract_text_from_blocks, fresh_conversations,
    gather_lines, load_from_cache,
    load_project_conversations, load_step, loaded_fresh, parse_transcript_line, plan_delete,
    process_transcript_file, project_modified, read_entries, sort_latest_first, sort_projects,
    summarize_blocks_for_preview, transcript_parent_dir, AgentCommands, AgentProject,
    ConversationLoad, CursorAgentProvider, DeletePlan, TranscriptBlock, TranscriptDirEntry,
    TranscriptLine, TranscriptRecord,
};
use mnemonai::providers::workspace::{
    component_prefix_viable, dfs_resolve, pick_candidate, resolve_workspace_path, Disk,
};
use mnemonai::time::Timestamp;
use serde_json::Value;
use std::path::Path;

// Transcripts

fn text_at(value: &Value, key: &str) -> Option<String> {
    value[key].as_str().map(String::from)
}

fn json_at(value: &Value, key: &str) -> Option<String> {
    match &value[key] {
        Value::Null => None,
        other => Some(other.to_string()),
    }
}

fn record_from(value: &Value) -> Result<TranscriptRecord, String> {
    let role = match text_at(value, "role") {
        Some(role) => role,
        None => return Err("missing field `role`".to_string()),
    };
    let blocks = value["message"]["content"].as_array().cloned().unwrap_or_default();
    let content = blocks
        .iter()
        .map(|b| TranscriptBlock {
            block_type: text_at(b, "type").unwrap(),
            text: text_at(b, "text"),
            name: text_at(b, "name"),
            input: json_at(b, "input"),
            thinking: text_at(b, "thinking"),
            signature: text_at(b, "signature"),
            source: json_at(b, "source"),
            content: json_at(b, "content"),
            tool_use_id: text_at(b, "tool_use_id"),
            id: text_at(b, "id"),
        })
        .collect();
    Ok(TranscriptRecord { role, timestamp: text_at(value, "timestamp"), content })
}

fn record(line: &str) -> TranscriptRecord {
    record_from(&serde_json::from_str(line).unwrap()).unwrap()
}

fn line(text: &str) -> TranscriptLine {
    let parsed: Result<Value, String> = serde_json::from_str(text).map_err(|_| "bad".to_string());
    TranscriptLine::Text {
        content: text.to_string(),
        record: parsed.and_then(|value| record_from(&value)),
    }
}

fn says(role: &str, text: &str) -> TranscriptLine {
    line(&format!(
        "{{\"role\":\"{}\",\"message\":{{\"content\":[{{\"type\":\"text\",\"text\":\"{}\"}}]}}}}",
        role, text
    ))
}

fn process(lines: Vec<TranscriptLine>, show_last: bool) -> Option<Conversation> {
    process_transcript_file(
        "/p/chat.jsonl".to_string(),
        show_last,
        None,
        String::new(),
        "Users-me-x".to_string(),
        lines,
        Some(stamp(50)),
    )
}

fn stamp(secs: i64) -> Timestamp {
    Timestamp { secs, nanos: 0, offset: 0 }
}

fn conv(id: &str, path: &str, secs: i64) -> Conversation {
    Conversation {
        path: path.to_string(),
        index: 0,
        provider: ProviderKind::CursorAgent,
        id: id.to_string(),
        timestamp: stamp(secs),
        preview: String::new(),
        full_text: String::new(),
        project_name: None,
        project_path: None,
        cwd: None,
        message_count: 0,
        parse_errors: Vec::new(),
        summary: None,
        model: None,
        total_tokens: 0,
        duration_minutes: None,
        first_message_time: None,
        last_message_time: None,
        search_text_lower: None,
        search_topic_end: None,
    }
}

#[test]
fn parse_transcript_line_converts_tool_calls() {
    let line = r#"{"role":"assistant","message":{"content":[{"type":"text","text":"Checking now"},{"type":"tool_use","name":"Shell","input":{"command":"git status"}}]}}"#;

    let parsed = parse_transcript_line(&record(line), 1, &None).unwrap();
    match parsed.entry {
        LogEntry::Assistant { message, .. } => {
            assert_eq!(message.content.len(), 2);
            match &message.content[1] {
                ContentBlock::ToolUse { id, name, input } => {
                    assert_eq!(name, "Shell");
                    assert!(!id.is_empty());
                    let input: Value = serde_json::from_str(input).unwrap();
                    assert_eq!(input["command"], "git status");
                }
                other => panic!("expected tool use, got {:?}", other),
            }
        }
        other => panic!("expected assistant entry, got {:?}", other),
    }
    assert_eq!(parsed.text_for_preview.as_deref(), Some("Checking now"));
}

#[test]
fn process_transcript_file_builds_conversation_metadata() {
    let workspace_path = "/data/conversation/workspace".to_string();
    let lines = vec![
        line(r#"{"role":"user","timestamp":"2026-04-24T20:00:00Z","message":{"content":[{"type":"text","text":"hello from cursor agent"}]}}"#),
        line(r#"{"role":"assistant","timestamp":"2026-04-24T20:02:00Z","message":{"content":[{"type":"text","text":"hi there"},{"type":"tool_use","name":"Shell","input":{"command":"pwd"}}]}}"#),
    ];

    let conversation = process_transcript_file(
        "/data/conversation/chat-123.jsonl".to_string(),
        false,
        Some(workspace_path.clone()),
        "workspace".to_string(),
        "test-workspace".to_string(),
        lines,
        None,
    )
    .unwrap();

    assert_eq!(conversation.provider, ProviderKind::CursorAgent);
    assert_eq!(conversation.id, "chat-123");
    assert_eq!(conversation.project_path.as_ref(), Some(&workspace_path));
    assert_eq!(conversation.cwd.as_ref(), Some(&workspace_path));
    assert_eq!(conversation.project_name.as_deref(), Some("workspace"));
    assert!(conversation.preview.contains("hello from cursor agent"));
    assert!(conversation.preview.contains("hi there"));
    assert!(conversation.full_text.contains("hello from cursor agent"));
    assert_eq!(conversation.message_count, 2);
    assert_eq!(conversation.duration_minutes, Some(2));
    assert_eq!(conversation.timestamp.secs, 1_777_060_920);
}

#[test]
fn project_name_falls_back_to_dir_name_segment() {
    let lines = vec![line(
        r#"{"role":"user","timestamp":"2026-04-24T20:00:00Z","message":{"content":[{"type":"text","text":"hello"}]}}"#,
    )];
    let conversation = process_transcript_file(
        "/data/project-name-fallback/chat-456.jsonl".to_string(),
        false,
        None,
        String::new(),
        "Users-me-myproject".to_string(),
        lines,
        None,
    )
    .unwrap();

    assert_eq!(conversation.project_name.as_deref(), Some("myproject"));
}

#[test]
fn previews_take_three_parts_from_either_end() {
    let lines = || {
        vec![
            says("user", "one"),
            says("assistant", "  two \\n more "),
            says("user", "three"),
            says("assistant", "four"),
        ]
    };
    assert_eq!(process(lines(), false).unwrap().preview, "one ... two more ... three");
    assert_eq!(process(lines(), true).unwrap().preview, "four ... three ... two more");
    let c = process(lines(), false).unwrap();
    assert_eq!(c.full_text, "one two more three four");
    assert_eq!(c.message_count, 4);
    assert_eq!(c.timestamp.secs, 50);
    assert_eq!(c.duration_minutes, None);
    assert_eq!(c.project_name.as_deref(), Some("x"));
    assert!(c.parse_errors.is_empty());
}

#[test]
fn gathered_lines_make_the_conversation() {
    let mut gathered = gather_lines(vec![says("user", "one"), says("assistant", "two")], &None);
    assert_eq!(gathered.messages, 2);
    assert_eq!(gathered.preview, vec!["one", "two"]);
    assert_eq!((gathered.first, gathered.last), (None, None));
    gathered.first = Some(stamp(0));
    gathered.last = Some(stamp(3 * 3600));
    let c = conversation_from(
        "..".to_string(),
        false,
        None,
        String::new(),
        "trailing-",
        gathered,
        stamp(77),
    )
    .unwrap();
    assert_eq!(c.id, "unknown");
    assert_eq!(c.timestamp, stamp(77));
    assert_eq!(c.duration_minutes, Some(180));
    assert_eq!(c.project_name, None);
    assert_eq!(c.preview, "one ... two");
}

#[test]
fn broken_lines_are_told_with_their_numbers() {
    let lines = vec![
        says("user", "fine"),
        TranscriptLine::Unreadable("not text".to_string()),
        line("   "),
        line("{broken"),
        line("{\"role\":\"system\",\"message\":{}}"),
    ];
    let c = process(lines, false).unwrap();
    assert_eq!(c.message_count, 1);
    assert_eq!(c.parse_errors.len(), 2);
    assert_eq!(c.parse_errors[0].line_number, 2);
    assert_eq!(c.parse_errors[0].line_content, "");
    assert_eq!(c.parse_errors[0].error_message, "not text");
    assert_eq!(c.parse_errors[1].line_number, 4);
    assert_eq!(c.parse_errors[1].line_content, "{broken");
    assert_eq!(c.parse_errors[1].error_message, "bad");
}

#[test]
fn a_transcript_without_text_is_no_conversation() {
    assert!(process(Vec::new(), false).is_none());
    assert!(process(vec![says("system", "hello")], false).is_none());
    assert!(process(vec![line("{broken")], false).is_none());
}

#[test]
fn negative_spans_give_no_duration() {
    let at = |time: &str| {
        line(&format!(
            "{{\"role\":\"user\",\"timestamp\":\"{}\",\"message\":{{\"content\":[{{\"type\":\"text\",\"text\":\"t\"}}]}}}}",
            time
        ))
    };
    let back = process(vec![at("2026-04-24T20:05:00Z"), at("2026-04-24T20:00:00Z")], false);
    assert_eq!(back.unwrap().duration_minutes, None);
    let short = process(vec![at("2026-04-24T20:00:00Z"), at("2026-04-24T20:00:59Z")], false);
    assert_eq!(short.unwrap().duration_minutes, None);
    let zones = process(
        vec![at("2026-04-24T20:00:00+02:00"), at("never"), at("2026-04-24T20:00:00+01:00")],
        false,
    );
    assert_eq!(zones.unwrap().duration_minutes, Some(60));
}

#[test]
fn roles_are_read_in_any_case() {
    let upper = record("{\"role\":\"USER\",\"message\":{\"content\":[{\"type\":\"text\",\"text\":\"t\"}]}}");
    let parsed = parse_transcript_line(&upper, 3, &Some("/ws".to_string())).unwrap();
    match parsed.entry {
        LogEntry::User { message, timestamp, uuid, cwd } => {
            assert_eq!(message.role, "user");
            assert_eq!(timestamp, "");
            assert_eq!(uuid, None);
            assert_eq!(cwd.as_deref(), Some("/ws"));
        }
        other => panic!("expected a user entry, got {:?}", other),
    }
    assert!(parsed.counts_as_message);
    assert_eq!(parsed.timestamp, None);
}

#[test]
fn blocks_fill_in_what_is_missing() {
    let block = |json: &str| {
        let mut r = record(&format!("{{\"role\":\"user\",\"message\":{{\"content\":[{}]}}}}", json));
        r.content.remove(0)
    };
    match block_to_content_block(&block("{\"type\":\"tool_use\"}"), 4, 2) {
        Some(ContentBlock::ToolUse { id, name, input }) => {
            assert_eq!(id, "cursor-agent-4-2");
            assert_eq!(name, "tool");
            assert_eq!(input, "null");
        }
        other => panic!("expected tool use, got {:?}", other),
    }
    match block_to_content_block(&block("{\"type\":\"tool_result\",\"content\":\"x\"}"), 4, 2) {
        Some(ContentBlock::ToolResult { tool_use_id, content }) => {
            assert_eq!(tool_use_id, "cursor-agent-result-4-2");
            assert_eq!(content.as_deref(), Some("\"x\""));
        }
        other => panic!("expected a tool result, got {:?}", other),
    }
    match block_to_content_block(&block("{\"type\":\"thinking\"}"), 0, 10) {
        Some(ContentBlock::Thinking { thinking, signature }) => {
            assert_eq!(thinking, "");
            assert_eq!(signature, "cursor-agent-thinking-0-10");
        }
        other => panic!("expected thinking, got {:?}", other),
    }
    assert!(block_to_content_block(&block("{\"type\":\"text\"}"), 1, 1).is_none());
    assert!(block_to_content_block(&block("{\"type\":\"image\"}"), 1, 1).is_none());
    assert!(block_to_content_block(&block("{\"type\":\"other\"}"), 1, 1).is_none());
    match block_to_content_block(&block("{\"type\":\"image\",\"source\":{\"a\":1}}"), 1, 1) {
        Some(ContentBlock::Image { source }) => assert_eq!(source, "{\"a\":1}"),
        other => panic!("expected an image, got {:?}", other),
    }
}

#[test]
fn summaries_stand_in_for_text() {
    let r = record(
        r#"{"role":"assistant","message":{"content":[{"type":"thinking"},{"type":"tool_use","name":"A"},{"type":"tool_use"},{"type":"tool_use","name":"B"},{"type":"tool_use","name":"C"}]}}"#,
    );
    assert_eq!(
        summarize_blocks_for_preview(&r.content).as_deref(),
        Some("Thinking ... Tool: A ... Tool: B")
    );
    let parsed = parse_transcript_line(&r, 1, &None).unwrap();
    assert_eq!(parsed.text_for_search.as_deref(), Some("Thinking ... Tool: A ... Tool: B"));
    assert_eq!(summarize_blocks_for_preview(&Vec::new()), None);
    let blocks = vec![
        ContentBlock::Text { text: "a".to_string() },
        ContentBlock::Thinking { thinking: "t".to_string(), signature: "s".to_string() },
        ContentBlock::Text { text: "b".to_string() },
    ];
    assert_eq!(extract_text_from_blocks(&blocks), "a b");
}

#[test]
fn time_of_activity() {
    let told = activity_time(Some(stamp(7)), Some(stamp(9)));
    assert_eq!((told.secs, told.nanos), (7, 0));
    let changed = activity_time(None, Some(stamp(9)));
    assert_eq!((changed.secs, changed.nanos), (9, 0));
    assert!(activity_time(None, None).secs > 1_600_000_000);
}

#[test]
fn reading_entries_stops_at_the_first_fault() {
    let c = conv("chat", "/p/chat.jsonl", 0);
    let good = vec![says("user", "a"), line(" "), says("system", "b"), says("assistant", "c")];
    assert_eq!(read_entries(&c, good).unwrap().len(), 2);
    let again =
        vec![says("user", "a"), line(" "), says("system", "b"), says("assistant", "c")];
    assert_eq!(process(again, false).unwrap().message_count, 2);
    let bad = vec![says("user", "a"), line("{broken"), TranscriptLine::Unreadable("x".to_string())];
    match read_entries(&c, bad) {
        Err(AppError::ClaudeExecutionError(text)) => assert_eq!(
            text,
            "Failed to parse Cursor Agent transcript /p/chat.jsonl line 2: bad"
        ),
        other => panic!("expected an error, got {:?}", other),
    }
    let unreadable = vec![TranscriptLine::Unreadable("x".to_string())];
    assert!(matches!(read_entries(&c, unreadable), Err(AppError::Io(text)) if text == "x"));
}

// Where transcripts lie

#[test]
fn delete_prefers_transcript_directory() {
    let c = conv("chat-123", "/data/delete/agent-transcripts/chat-123/chat-123.jsonl", 0);
    match plan_delete(&c, true) {
        DeletePlan::Directory(dir) => assert_eq!(dir, "/data/delete/agent-transcripts/chat-123"),
        other => panic!("expected a directory, got {:?}", other),
    }
    assert!(matches!(plan_delete(&c, false), DeletePlan::File(path) if path == c.path));
    let elsewhere = conv("chat-123", "/data/delete/chat-123/chat-123.jsonl", 0);
    assert!(matches!(plan_delete(&elsewhere, true), DeletePlan::File(_)));
    assert_eq!(
        transcript_parent_dir(&c.path, "chat-123").as_deref(),
        Some("/data/delete/agent-transcripts/chat-123")
    );
    assert_eq!(transcript_parent_dir(&c.path, "other"), None);
}

#[test]
fn extract_project_dir_name_from_transcript_path() {
    let path =
        "/home/user/.cursor/projects/Users-me-myproject/agent-transcripts/chat-1/chat-1.jsonl";
    assert_eq!(extract_project_dir_name(path).as_deref(), Some("Users-me-myproject"));
}

#[test]
fn extract_project_dir_name_returns_none_for_unrelated_path() {
    assert_eq!(extract_project_dir_name("/tmp/random/file.jsonl"), None);
}

#[test]
fn transcripts_are_found_in_files_and_directories() {
    let entry = |path: &str, is_file: bool, default_is_file: bool, nested: Vec<(&str, bool)>| {
        TranscriptDirEntry {
            path: path.to_string(),
            name: path.rsplit('/').next().unwrap().to_string(),
            is_file,
            is_dir: !is_file,
            default_is_file,
            nested: nested.iter().map(|(p, f)| (p.to_string(), *f)).collect(),
        }
    };
    let entries = vec![
        entry("/t/a.jsonl", true, false, Vec::new()),
        entry("/t/notes.txt", true, false, Vec::new()),
        entry("/t/b", false, true, vec![("/t/b/x.jsonl", true)]),
        entry("/t/c", false, false, vec![("/t/c/d.jsonl", false), ("/t/c/e.jsonl", true)]),
        entry("/t/empty", false, false, Vec::new()),
    ];
    assert_eq!(
        collect_transcript_files(&entries),
        vec!["/t/a.jsonl", "/t/b/b.jsonl", "/t/c/e.jsonl"]
    );
    let files: Vec<String> = ["a", "b", "c", "d"].iter().map(|s| s.to_string()).collect();
    assert_eq!(sort_latest_first(files, &[5, 9, 5, 1]), vec!["b", "c", "a", "d"]);
}

#[test]
fn projects_come_latest_first() {
    let project = |name: &str, modified: i128| AgentProject {
        project_dir_name: name.to_string(),
        workspace_path: None,
        transcript_files: Vec::new(),
        modified,
    };
    let sorted = sort_projects(vec![project("a", 1), project("b", 3), project("c", 3)]);
    let names: Vec<&str> = sorted.iter().map(|p| p.project_dir_name.as_str()).collect();
    assert_eq!(names, vec!["b", "c", "a"]);
    assert_eq!(project_modified(&[None, Some(4), Some(9), Some(2)]), 9);
    assert_eq!(project_modified(&[None, Some(-4)]), -4);
    assert_eq!(project_modified(&[]), 0);
}

// Workspaces

struct Tree {
    dirs: Vec<String>,
}

impl Tree {
    /// The named directories, with all that lie above them.
    fn new(leaves: &[&str]) -> Tree {
        let mut dirs: Vec<String> = vec!["/".to_string()];
        for leaf in leaves {
            for (i, c) in leaf.char_indices() {
                if c == '/' && i > 0 {
                    dirs.push(leaf[..i].to_string());
                }
            }
            dirs.push(leaf.to_string());
        }
        dirs.sort();
        dirs.dedup();
        Tree { dirs }
    }

    fn has(&self, path: &str) -> bool {
        self.dirs.iter().any(|d| Path::new(d) == Path::new(path))
    }

    fn names(&self, path: &str) -> Option<Vec<String>> {
        if !self.has(path) {
            return None;
        }
        let inside = self.dirs.iter().filter(|d| Path::new(d).parent() == Some(Path::new(path)));
        Some(inside.map(|d| d.rsplit('/').next().unwrap().to_string()).collect())
    }

    fn resolve(&self, encoded: &str, chats: Option<&str>) -> Option<String> {
        let disk = Disk {
            exists: |p: &str| self.has(p),
            is_dir: |p: &str| self.has(p),
            names: |p: &str| self.names(p),
        };
        resolve_workspace_path(&disk, encoded, &chats.map(String::from))
    }
}

fn machine_names(path: &str) -> Option<Vec<String>> {
    let entries = Path::new(path).read_dir().ok()?;
    Some(
        entries
            .filter_map(|e| e.ok())
            .filter_map(|e| e.file_name().to_str().map(String::from))
            .collect(),
    )
}

#[test]
fn dfs_resolve_finds_path_with_all_slashes() {
    if !Path::new("/tmp").is_dir() {
        return;
    }
    let disk = Disk {
        exists: |p: &str| Path::new(p).exists(),
        is_dir: |p: &str| Path::new(p).is_dir(),
        names: machine_names,
    };
    let segments = vec!["tmp".to_string()];
    let mut results: Vec<String> = Vec::new();
    dfs_resolve(&disk, &segments, 0, String::from("/"), &mut results);
    assert!(results.contains(&"/tmp".to_string()), "DFS should find /tmp in {:?}", results);
}

#[test]
fn resolve_workspace_path_returns_none_for_nonexistent() {
    let disk = Disk {
        exists: |p: &str| Path::new(p).exists(),
        is_dir: |p: &str| Path::new(p).is_dir(),
        names: machine_names,
    };
    assert_eq!(
        resolve_workspace_path(&disk, "zzznonexistent-path-that-does-not-exist", &None),
        None
    );
}

#[test]
fn resolve_workspace_private_tmp() {
    let tree = Tree::new(&["/private/tmp"]);
    let result = tree.resolve("private-tmp", None);
    assert_eq!(result, Some("/private/tmp".to_string()));
}

#[test]
fn dfs_resolve_handles_hyphen_in_name() {
    let tree = Tree::new(&["/tmp/mnemonai-dfs-hyphen-1-2/sub/a-b"]);
    let result = tree.resolve("tmp-mnemonai-dfs-hyphen-1-2-sub-a-b", None);
    assert_eq!(
        result,
        Some("/tmp/mnemonai-dfs-hyphen-1-2/sub/a-b".to_string()),
        "DFS should reconstruct path with hyphenated directory name"
    );
}

#[test]
fn dfs_resolve_handles_dot_in_name() {
    let tree = Tree::new(&["/tmp/mnemonai-dfs-dot-1-2/my.config"]);
    let result = tree.resolve("tmp-mnemonai-dfs-dot-1-2-my-config", None);
    assert_eq!(
        result,
        Some("/tmp/mnemonai-dfs-dot-1-2/my.config".to_string()),
        "DFS should reconstruct path with dot-separated name"
    );
}

#[test]
fn md5_tiebreaker_selects_correct_candidate() {
    let parent = "/tmp/mnemonai-md5-tiebreaker-1-2";
    // Two candidates that the search would both find
    let candidate_a = format!("{}/x/y", parent);
    let candidate_b = format!("{}/x-y", parent);
    // A chats directory with the MD5 of the second
    let chats_dir = format!("{}/chats", parent);
    let hash_b = format!("{:x}", md5::compute(candidate_b.as_bytes()));
    let chat = format!("{}/{}", chats_dir, hash_b);
    let tree = Tree::new(&[&candidate_a, &candidate_b, &chat]);
    let result = tree.resolve("tmp-mnemonai-md5-tiebreaker-1-2-x-y", Some(&chats_dir));
    assert_eq!(
        result,
        Some(candidate_b),
        "MD5 tiebreaker should select the candidate with a matching chats directory"
    );
}

#[test]
fn without_a_mark_the_longest_candidate_is_taken() {
    let tree = Tree::new(&["/w/a-b", "/w/a/.b", "/chats"]);
    assert_eq!(tree.resolve("w-a-b", Some("/chats")), Some("/w/a/.b".to_string()));
    assert_eq!(tree.resolve("w-a-b", None), Some("/w/a/.b".to_string()));
    assert_eq!(tree.resolve("", None), None);
    assert_eq!(tree.resolve("w-a-c", None), None);
}

#[test]
fn spaces_dots_and_hidden_directories_are_tried() {
    assert_eq!(Tree::new(&["/w/my dir"]).resolve("w-my-dir", None), Some("/w/my dir".to_string()));
    assert_eq!(Tree::new(&["/w/.hid"]).resolve("w-hid", None), Some("/w/.hid".to_string()));
    let tree = Tree::new(&["/w/ab-cd"]);
    let disk = Disk {
        exists: |p: &str| tree.has(p),
        is_dir: |p: &str| tree.has(p),
        names: |p: &str| tree.names(p),
    };
    assert!(component_prefix_viable(&disk, "/w/ab", false));
    assert!(!component_prefix_viable(&disk, "/w/ab", true));
    assert!(!component_prefix_viable(&disk, "/w/x", false));
    assert!(component_prefix_viable(&disk, "/w/ab-cd", true));
    let marks = vec!["m1".to_string(), "m2".to_string()];
    let candidates = vec!["/w".to_string(), "/w/ab-cd".to_string()];
    assert_eq!(
        pick_candidate(&disk, &None, candidates, marks),
        Some("/w/ab-cd".to_string())
    );
    assert_eq!(pick_candidate(&disk, &None, Vec::new(), Vec::new()), None);
}

// The provider

#[test]
fn provider_places() {
    let provider = CursorAgentProvider::new(Some("/home/me".to_string()));
    assert_eq!(provider.projects_root(), "/home/me/.cursor/projects");
    assert_eq!(provider.chats_dir().as_deref(), Some("/home/me/.cursor/chats"));
    assert_eq!(provider.kind(), ProviderKind::CursorAgent);
    assert_eq!(provider.name(), "Cursor Agent CLI");
    assert_eq!(CursorAgentProvider::new(None).projects_root(), ".cursor/projects");
    assert_eq!(CursorAgentProvider::with_root("/".to_string()).chats_dir(), None);
}

#[test]
fn resuming_finds_the_workspace() {
    let tree = Tree::new(&["/code/p", "/code/q"]);
    let disk = Disk {
        exists: |p: &str| tree.has(p),
        is_dir: |p: &str| tree.has(p),
        names: |p: &str| tree.names(p),
    };
    let provider = CursorAgentProvider::new(Some("/home/me".to_string()));
    let root = "/home/me/.cursor/projects";
    let mut c = conv("chat", &format!("{}/code-q/agent-transcripts/chat/chat.jsonl", root), 0);
    assert_eq!(provider.resume_workspace(&disk, &c).unwrap(), "/code/q");
    c.cwd = Some("/code/p".to_string());
    assert_eq!(provider.resume_workspace(&disk, &c).unwrap(), "/code/p");
    c.project_path = Some("/gone".to_string());
    assert_eq!(provider.resume_workspace(&disk, &c).unwrap(), "/code/q");
    c.path = format!("{}/code-z/agent-transcripts/chat/chat.jsonl", root);
    assert!(matches!(
        provider.resume_workspace(&disk, &c),
        Err(AppError::ClaudeExecutionError(text))
            if text == "Cannot determine workspace path for this Cursor Agent conversation"
    ));
    c.path = "/elsewhere/chat.jsonl".to_string();
    assert!(matches!(
        provider.resume_workspace(&disk, &c),
        Err(AppError::ClaudeExecutionError(text))
            if text == "Cannot determine project directory for this Cursor Agent conversation"
    ));
}

#[test]
fn resume_commands() {
    let commands = |cursor_agent, agent, cursor| AgentCommands { cursor_agent, agent, cursor };
    let all = build_resume_command(commands(true, true, true), "/w", "id").unwrap();
    assert_eq!(all.program, "cursor-agent");
    assert_eq!(all.args, vec!["--resume", "id", "--workspace", "/w"]);
    assert_eq!(all.current_dir, "/w");
    assert_eq!(build_resume_command(commands(false, true, true), "/w", "id").unwrap().program, "agent");
    let cursor = build_resume_command(commands(false, false, true), "/w", "id").unwrap();
    assert_eq!(cursor.program, "cursor");
    assert_eq!(cursor.args, vec!["agent", "--resume", "id", "--workspace", "/w"]);
    assert!(matches!(
        build_resume_command(commands(false, false, false), "/w", "id"),
        Err(AppError::ClaudeExecutionError(text)) if text
            == "Could not find a Cursor Agent CLI executable (`cursor-agent`, `agent`, or `cursor`)"
    ));
}

#[test]
fn loading_goes_through_the_index() {
    let print = SourceFingerprint { modified_millis: 1, size: 2 };
    let other = SourceFingerprint { modified_millis: 3, size: 2 };
    let mut kept = conv("kept", "/p/kept.jsonl", 10);
    kept.search_text_lower = Some("text".to_string());
    let row = row_from_conversation(&kept, print, "[]".to_string(), 0).unwrap();
    let cache = load_provider_cache(ProviderKind::CursorAgent, vec![(row, Vec::new())]);
    assert_eq!(load_from_cache(&cache, "/p/kept.jsonl", Some(print)).unwrap().id, "kept");
    assert!(load_from_cache(&cache, "/p/kept.jsonl", Some(other)).is_none());
    assert!(load_from_cache(&cache, "/p/kept.jsonl", None).is_none());
    assert!(load_from_cache(&cache, "/p/new.jsonl", Some(print)).is_none());

    let fresh = loaded_fresh(conv("fresh", "/p/fresh.jsonl", 30), Some(other));
    assert!(matches!(fresh, ConversationLoad::Fresh(_, f) if f == other));
    let loads = vec![
        ConversationLoad::Cached(kept),
        loaded_fresh(conv("fresh", "/p/fresh.jsonl", 30), Some(other)),
        loaded_fresh(conv("unstamped", "/p/u.jsonl", 20), None),
    ];
    let step = |cached: Option<&str>, parsed: Option<&str>, print| {
        let make = |id: Option<&str>| id.map(|id| conv(id, "/p/x.jsonl", 0));
        load_step(make(cached), make(parsed), print)
    };
    assert!(matches!(
        step(Some("c"), Some("p"), Some(print)),
        Some(ConversationLoad::Cached(c)) if c.id == "c"
    ));
    assert!(matches!(
        step(None, Some("p"), Some(print)),
        Some(ConversationLoad::Fresh(c, f)) if c.id == "p" && f == print
    ));
    assert!(matches!(
        step(None, Some("p"), None),
        Some(ConversationLoad::Cached(c)) if c.id == "p"
    ));
    assert!(step(None, None, Some(print)).is_none());
    let saved = fresh_conversations(&loads);
    assert_eq!(saved.len(), 1);
    assert_eq!((saved[0].0.id.as_str(), saved[0].1), ("fresh", other));
    let list = load_project_conversations(loads);
    let ids: Vec<&str> = list.iter().map(|c| c.id.as_str()).collect();
    assert_eq!(ids, vec!["fresh", "unstamped", "kept"]);
    assert_eq!(list[2].index, 2);
}
