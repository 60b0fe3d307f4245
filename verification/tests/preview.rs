use mnemonai::history::grouping::ProjectGroup;
use mnemonai::history::{Conversation, ParseError, ProviderKind, ToolName};
use mnemonai::time::Timestamp;
use mnemonai::tui::lines::{text_of_line, LineStyle, RenderedLine};
use mnemonai::tui::preview::{
    branch_from_output, build_group_preview, build_preview, build_preview_at, format_duration,
    format_model_short, format_tokens, short_path, status_at, status_for, truncate_id, BranchCache,
    PreviewFacts,
};

fn at(secs: i64) -> Timestamp {
    Timestamp { secs, nanos: 0, offset: 0 }
}

fn conv() -> Conversation {
    Conversation {
        path: "/data/a.jsonl".to_string(),
        index: 0,
        provider: ProviderKind::CursorAgent,
        id: "0123456789abcdef".to_string(),
        timestamp: at(1_700_000_000),
        preview: "  a preview  ".to_string(),
        full_text: String::new(),
        project_name: Some("proj".to_string()),
        project_path: Some("/home/me/proj".to_string()),
        cwd: Some("/home/me/proj/sub".to_string()),
        message_count: 12,
        parse_errors: Vec::new(),
        summary: Some("In short".to_string()),
        model: Some("tool-opus-4-5-20251101".to_string()),
        total_tokens: 45_678,
        duration_minutes: Some(135),
        first_message_time: None,
        last_message_time: None,
        search_text_lower: None,
        search_topic_end: None,
    }
}

fn facts() -> PreviewFacts {
    PreviewFacts {
        tool: ToolName { label: "Tool".to_string(), command: "tool".to_string() },
        project_exists: true,
        home: Some("/home/me".to_string()),
        branch: Some("main".to_string()),
    }
}

fn line(text: &str) -> RenderedLine {
    let style = LineStyle { fg: None, bold: false, dimmed: false, italic: false };
    RenderedLine { spans: vec![(text.to_string(), style)] }
}

fn texts(lines: &[RenderedLine]) -> Vec<String> {
    lines.iter().map(text_of_line).collect()
}

#[test]
fn preview_of_a_conversation() {
    let lines = build_preview_at(
        &conv(),
        &facts(),
        at(1_700_000_060),
        24,
        Some(vec![line("body")]),
        "2023-11-14 22:13".to_string(),
    );
    let at_present = texts(&build_preview(&conv(), &facts(), 24, Some(vec![line("body")])));
    assert_eq!(at_present[0], "proj  \u{25cb} idle  Cursor CLI");
    assert_eq!(at_present[1..], texts(&lines)[1..]);
    let rule = "\u{2500}".repeat(24);
    assert_eq!(
        texts(&lines),
        vec![
            "proj  \u{25cf} active  Cursor CLI",
            "",
            "path:    ~/proj",
            "branch:  main",
            "cwd:     ~/proj/sub",
            "session: 0123456789ab\u{2026}",
            "model:   opus-4.5",
            "tokens:  45k",
            "messages:12 msgs \u{b7} 2h 15m",
            "updated: 2023-11-14 22:13",
            "",
            "In short",
            "",
            &rule,
            "",
            "body",
        ]
    );
    assert!(lines[0].spans[0].1.bold);
    assert_eq!(lines[0].spans[0].1.fg, Some((78, 201, 176)));
    assert_eq!(lines[0].spans[2].1.fg, Some((120, 200, 130)));
    assert_eq!(lines[0].spans[6].1.fg, Some((94, 184, 255)));
    assert_eq!(lines[2].spans[0].1.fg, Some((140, 140, 140)));
    assert_eq!(lines[3].spans[1].1.fg, Some((180, 140, 200)));
    assert_eq!(lines[13].spans[0].1.fg, Some((60, 60, 60)));
}

#[test]
fn preview_leaves_out_what_is_not_known() {
    let mut c = conv();
    c.project_name = None;
    c.project_path = None;
    c.cwd = None;
    c.model = None;
    c.total_tokens = 0;
    c.duration_minutes = None;
    c.summary = Some(String::new());
    c.id = "short".to_string();
    let updated = "2023-11-14 22:13".to_string();
    let lines = build_preview_at(&c, &facts(), at(1_700_000_000 + 3600), 3, None, updated);
    let rule = "\u{2500}".repeat(20);
    assert_eq!(
        texts(&lines),
        vec![
            "(unknown)  \u{25d0} recent  Cursor CLI",
            "",
            "session: short",
            "messages:12 msgs",
            "updated: 2023-11-14 22:13",
            "",
            &rule,
            "",
            "(failed to read conversation file)",
        ]
    );
}

#[test]
fn statuses() {
    let c = conv();
    let then = 1_700_000_000;
    let status = |secs: i64| status_at(&c, true, at(then + secs)).1;
    assert_eq!(status(0), "active");
    assert_eq!(status(600), "active");
    assert_eq!(status(601), "recent");
    assert_eq!(status(630), "recent");
    assert_eq!(status(7200), "recent");
    assert_eq!(status(7201), "idle");
    assert_eq!(status(-30_000), "active");
    let just_after = Timestamp { secs: then + 600, nanos: 1, offset: 0 };
    assert_eq!(
        status_at(&c, true, just_after),
        ("\u{25d0}", "recent", (220, 190, 100))
    );
    let just_before = Timestamp { secs: then + 599, nanos: 999_999_999, offset: 0 };
    assert_eq!(status_at(&c, true, just_before).1, "active");
    assert_eq!(
        status_at(&c, true, at(then + 999_999)),
        ("\u{25cb}", "idle", (120, 120, 120))
    );
    assert_eq!(
        status_at(&c, false, at(then)),
        ("\u{2717}", "project deleted", (220, 90, 90))
    );
    let mut broken = conv();
    broken.parse_errors.push(ParseError {
        line_number: 1,
        line_content: String::new(),
        error_message: String::new(),
        context_before: Vec::new(),
        context_after: Vec::new(),
    });
    assert_eq!(status_at(&broken, false, at(then)).1, "parse errors");
    let mut nowhere = conv();
    nowhere.project_path = None;
    assert_eq!(status_at(&nowhere, false, at(then)).1, "active");
    assert_eq!(status_for(&nowhere, false).1, "idle");
}

#[test]
fn preview_of_a_group() {
    let mut bare = conv();
    bare.summary = None;
    let convs = vec![conv(), bare];
    let group = ProjectGroup {
        canonical_path: Some("/home/me/proj".to_string()),
        display_name: "proj".to_string(),
        conversation_indices: vec![1, 0, 7],
        last_activity: at(1_700_000_000),
        providers: vec![ProviderKind::Claude, ProviderKind::Cursor],
    };
    let lines = build_group_preview(&group, &convs, &facts(), 13);
    let rule = "\u{2500}".repeat(20);
    assert_eq!(
        texts(&lines),
        vec![
            "proj",
            "",
            "path:    ~/proj",
            "branch:  main",
            "sessions:3",
            "last:    2023-11-14 22:13",
            "providers:Tool, Cursor IDE",
            "",
            &rule,
            "",
            " 1. a pre",
            " 2. In sh",
        ]
    );
}

#[test]
fn group_previews_link_five_conversations() {
    let convs: Vec<Conversation> = (0..7).map(|_| conv()).collect();
    let group = ProjectGroup {
        canonical_path: None,
        display_name: "<unknown>".to_string(),
        conversation_indices: (0..7).collect(),
        last_activity: at(0),
        providers: Vec::new(),
    };
    let lines = texts(&build_group_preview(&group, &convs, &facts(), 40));
    assert_eq!(lines.len(), 2 + 2 + 3 + 5);
    assert_eq!(lines[11], " 5. In short");
}

#[test]
fn tokens_read_as_floating_point_writes_them() {
    let counts: [u64; 13] = [
        0, 999, 1_000, 1_999, 999_999, 1_000_000, 1_049_999, 1_050_000, 1_150_000, 2_250_000,
        123_456_789, (1 << 53) + 1, u64::MAX,
    ];
    for n in counts {
        let expected = if n >= 1_000_000 {
            format!("{:.1}M", n as f64 / 1_000_000.0)
        } else if n >= 1_000 {
            format!("{}k", n / 1_000)
        } else {
            n.to_string()
        };
        assert_eq!(format_tokens(n), expected);
    }
}

#[test]
fn short_forms() {
    assert_eq!(format_duration(0), "0m");
    assert_eq!(format_duration(59), "59m");
    assert_eq!(format_duration(60), "1h 0m");
    assert_eq!(truncate_id("0123456789abc"), "0123456789abc");
    assert_eq!(truncate_id("0123456789abcd"), "0123456789ab\u{2026}");
    let home = Some("/home/me".to_string());
    assert_eq!(short_path("/home/me/a/b", &home), "~/a/b");
    assert_eq!(short_path("/home/me", &home), "~/");
    assert_eq!(short_path("/home/meow", &home), "/home/meow");
    assert_eq!(short_path("/etc", &None), "/etc");
}

#[test]
fn model_names() {
    let names = [
        ("v-opus-4-5-1", "opus-4.5"),
        ("v-opus-4-7-", "opus-4.7"),
        ("v-sonnet-4-6-20", "sonnet-4.6"),
        ("v-sonnet-4-20", "sonnet-4"),
        ("v-3-5-sonnet-20", "sonnet-3.5"),
        ("v-3-5-haiku-20", "haiku-3.5"),
        ("v-3-opus-20", "opus-3"),
        ("v-3-sonnet-20", "sonnet-3"),
        ("v-3-haiku-20", "haiku-3"),
        ("v-opus-4-5-beta", "v-opus-4-5-beta"),
        ("abcdefghijklmnopqrst", "abcdefghijklmnopqrst"),
        ("abcdefghijklmnopqrstu", "abcdefghijklmnopqrs\u{2026}"),
    ];
    for (model, short) in names {
        assert_eq!(format_model_short(model, "v"), short);
    }
}

#[test]
fn branches_are_looked_up_once() {
    let out = |s: &str| branch_from_output(&Some(s.to_string()));
    assert_eq!(out("main\n").as_deref(), Some("main"));
    assert_eq!(out("HEAD\n"), None);
    assert_eq!(out("  \n"), None);
    assert_eq!(branch_from_output(&None), None);
    let mut cache = BranchCache::new();
    assert_eq!(cache.project_branch("/p"), None);
    cache.remember("/p".to_string(), Some("main".to_string()));
    cache.remember("/q".to_string(), None);
    assert_eq!(cache.project_branch("/p/"), Some(Some("main".to_string())));
    assert_eq!(cache.project_branch("/q"), Some(None));
}
