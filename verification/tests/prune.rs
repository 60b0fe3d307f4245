use mnemonai::error::AppError;
use mnemonai::history::{Conversation, ProviderKind, ToolName};
use mnemonai::prune::{
    compare_timestamp, confirm_prompt, date_cutoff, format_bytes, gather_victims, has_ascii_unit,
    is_confirmed, list_victims, midnight_cutoff, min_age_threshold, no_victims_message,
    parse_duration, parse_min_age, plan_trash, provider_label, provider_matches, prune_step,
    removal_step, resolve_cutoff, resolve_cutoff_at, select_victims, should_delete, sort_oldest_first,
    total_size, trash_dir, victim_line_from, ProviderBatch, ProviderFilter, PruneArgs, PruneStep,
    RemovalStep, Tally, TimestampSource, TrashPlan,
};
use mnemonai::time::Timestamp;

fn tool() -> ToolName {
    ToolName { label: "Tool".to_string(), command: "tool".to_string() }
}

fn at(secs: i64) -> Timestamp {
    Timestamp { secs, nanos: 0, offset: 0 }
}

fn conv(id: &str, secs: i64) -> Conversation {
    Conversation {
        path: format!("/data/{}.jsonl", id),
        index: 0,
        provider: ProviderKind::Claude,
        id: id.to_string(),
        timestamp: at(secs),
        preview: String::new(),
        full_text: String::new(),
        project_name: Some("proj".to_string()),
        project_path: Some("/code/proj".to_string()),
        cwd: None,
        message_count: 4,
        parse_errors: Vec::new(),
        summary: None,
        model: None,
        total_tokens: 0,
        duration_minutes: None,
        first_message_time: None,
        last_message_time: None,
        search_text_lower: None,
        search_topic_end: None,
    }
}

fn args() -> PruneArgs {
    PruneArgs {
        older_than: None,
        before: None,
        min_age: "1h".to_string(),
        provider: None,
        project: None,
        exclude_deleted_projects: false,
        timestamp_source: TimestampSource::Mtime,
        dry_run: false,
        yes: false,
        trash: false,
    }
}

fn config_error(e: AppError) -> String {
    match e {
        AppError::ConfigError(text) => text,
        other => panic!("expected a configuration error, got {:?}", other),
    }
}

fn ids(convs: &[Conversation]) -> Vec<&str> {
    convs.iter().map(|c| c.id.as_str()).collect()
}

#[test]
fn parse_duration_units() {
    assert_eq!(parse_duration("30s"), Some(30));
    assert_eq!(parse_duration("5m"), Some(300));
    assert_eq!(parse_duration("2h"), Some(7200));
    assert_eq!(parse_duration("3d"), Some(259200));
    assert_eq!(parse_duration("1w"), Some(604800));
    assert_eq!(parse_duration("1M"), Some(2592000));
    assert_eq!(parse_duration(""), None);
    assert_eq!(parse_duration("xyz"), None);
    assert_eq!(parse_duration("5"), None);
}

#[test]
fn format_bytes_units() {
    assert_eq!(format_bytes(0), "0 B");
    assert_eq!(format_bytes(2048), "2.00 KiB");
    assert_eq!(format_bytes(2 * 1024 * 1024), "2.00 MiB");
}

#[test]
fn durations_at_the_edges() {
    assert_eq!(parse_duration("  7d \n"), Some(604800));
    assert_eq!(parse_duration("+3s"), Some(3));
    assert_eq!(parse_duration("-3s"), None);
    assert_eq!(parse_duration("s"), None);
    assert_eq!(parse_duration("+s"), None);
    assert_eq!(parse_duration("1 s"), None);
    assert_eq!(parse_duration("18446744073709551615s"), Some(u64::MAX));
    assert_eq!(parse_duration("18446744073709551616s"), None);
    assert_eq!(parse_duration("18446744073709551615m"), None);
    assert_eq!(parse_duration("3y"), None);
    assert!(has_ascii_unit("3d"));
    assert!(has_ascii_unit("   "));
    assert!(!has_ascii_unit("3\u{e9}"));
}

#[test]
fn sizes_read_as_floating_point_writes_them() {
    let kib: u64 = 1024;
    let mib: u64 = kib * 1024;
    let gib: u64 = mib * 1024;
    let sizes: [u64; 14] = [
        1, 1023, 1024, 1029, 1030, 1034, 1535, 1536, mib - 1, mib, mib + 5243, 5 * gib / 3,
        (1 << 53) + 1, u64::MAX,
    ];
    for n in sizes {
        let expected = if n >= gib {
            format!("{:.2} GiB", n as f64 / gib as f64)
        } else if n >= mib {
            format!("{:.2} MiB", n as f64 / mib as f64)
        } else if n >= kib {
            format!("{:.2} KiB", n as f64 / kib as f64)
        } else {
            format!("{} B", n)
        };
        assert_eq!(format_bytes(n), expected);
    }
}

#[test]
fn cutoff_goes_back_from_now() {
    let mut a = args();
    a.older_than = Some("1d".to_string());
    let cutoff = resolve_cutoff_at(&a, at(1_000_000)).unwrap().unwrap();
    assert_eq!((cutoff.secs, cutoff.nanos), (1_000_000 - 86_400, 0));

    let now_ish = resolve_cutoff(&a).unwrap().unwrap();
    assert!(now_ish.secs > 1_600_000_000);
}

#[test]
fn cutoff_before_the_calendar_is_not_given() {
    let mut a = args();
    a.older_than = Some("9223372036854775s".to_string());
    assert!(resolve_cutoff_at(&a, at(0)).is_none());
}

#[test]
fn cutoff_errors() {
    let mut a = args();
    assert_eq!(
        config_error(resolve_cutoff_at(&a, at(0)).unwrap().unwrap_err()),
        "must specify --older-than or --before"
    );
    a.older_than = Some("soon".to_string());
    assert_eq!(
        config_error(resolve_cutoff_at(&a, at(0)).unwrap().unwrap_err()),
        "invalid --older-than: soon"
    );
    a.older_than = Some("18446744073709551615s".to_string());
    assert_eq!(
        config_error(resolve_cutoff_at(&a, at(0)).unwrap().unwrap_err()),
        "duration overflow: Source duration value is out of range for the target type"
    );
    a.before = Some("2026-01-01".to_string());
    assert_eq!(
        config_error(resolve_cutoff_at(&a, at(0)).unwrap().unwrap_err()),
        "specify only one of --older-than or --before"
    );
    assert_eq!(
        config_error(date_cutoff("yesterday").unwrap_err()),
        "invalid --before date 'yesterday': input contains invalid characters"
    );
    assert_eq!(
        config_error(midnight_cutoff("2026-03-29", None).unwrap_err()),
        "ambiguous local time for 2026-03-29"
    );
    assert_eq!(midnight_cutoff("2026-03-29", Some(at(5))).unwrap(), at(5));
}

#[test]
fn date_cutoff_is_a_local_midnight() {
    let t = date_cutoff("1970-01-11").unwrap();
    assert_eq!(t.secs + i64::from(t.offset), 10 * 86_400);
    assert_eq!(t.nanos, 0);
}

#[test]
fn filters_and_labels_of_providers() {
    let kinds = [ProviderKind::Claude, ProviderKind::Cursor, ProviderKind::CursorAgent];
    let filters = [ProviderFilter::Claude, ProviderFilter::Cursor, ProviderFilter::CursorAgent];
    for (i, kind) in kinds.iter().enumerate() {
        assert!(provider_matches(*kind, ProviderFilter::All));
        for (j, filter) in filters.iter().enumerate() {
            assert_eq!(provider_matches(*kind, *filter), i == j);
        }
    }
    assert_eq!(provider_label(ProviderKind::Claude, &tool()), "Tool");
    assert_eq!(provider_label(ProviderKind::Cursor, &tool()), "Cursor");
    assert_eq!(provider_label(ProviderKind::CursorAgent, &tool()), "Cursor Agent");
}

#[test]
fn compared_time_falls_back_to_the_last_change() {
    let mut c = conv("a", 100);
    assert_eq!(compare_timestamp(&c, TimestampSource::FirstMessage), (at(100), true));
    c.first_message_time = Some(at(10));
    c.last_message_time = Some(at(20));
    assert_eq!(compare_timestamp(&c, TimestampSource::Mtime), (at(100), true));
    assert_eq!(compare_timestamp(&c, TimestampSource::FirstMessage), (at(10), false));
    assert_eq!(compare_timestamp(&c, TimestampSource::LastMessage), (at(20), false));
}

#[test]
fn deletion_depends_on_each_condition() {
    let mut a = args();
    let c = conv("a", 100);
    assert!(should_delete(&c, true, &a, at(101), at(101)));
    assert!(!should_delete(&c, true, &a, at(100), at(101)));
    assert!(!should_delete(&c, true, &a, at(101), at(100)));
    assert!(should_delete(&c, false, &a, at(101), at(101)));
    a.exclude_deleted_projects = true;
    assert!(!should_delete(&c, false, &a, at(101), at(101)));
    assert!(should_delete(&c, true, &a, at(101), at(101)));
    a.project = Some("code".to_string());
    assert!(should_delete(&c, true, &a, at(101), at(101)));
    a.project = Some("other".to_string());
    assert!(!should_delete(&c, true, &a, at(101), at(101)));
    let mut nowhere = conv("b", 1);
    nowhere.project_path = None;
    a.project = None;
    assert!(should_delete(&nowhere, false, &a, at(101), at(101)));
}

#[test]
fn victims_are_all_the_old_ones_oldest_first() {
    let a = args();
    let batches = vec![
        ProviderBatch {
            kind: ProviderKind::Claude,
            conversations: vec![conv("new", 900), conv("old", 300), conv("same1", 200)],
            present: vec![true, true, true],
        },
        ProviderBatch {
            kind: ProviderKind::CursorAgent,
            conversations: vec![conv("oldest", 100), conv("same2", 200)],
            present: vec![true, true],
        },
    ];
    let victims = gather_victims(batches, &a, at(500), at(1000));
    assert_eq!(ids(&victims), vec!["oldest", "same1", "same2", "old"]);

    let kept = select_victims(
        vec![conv("a", 1), conv("b", 600), conv("c", 2)],
        &[true, true, true],
        &a,
        at(500),
        at(1000),
    );
    assert_eq!(ids(&kept), vec!["a", "c"]);
    assert_eq!(
        ids(&sort_oldest_first(vec![conv("x", 3), conv("y", 1), conv("z", 3)])),
        vec!["y", "x", "z"]
    );
}

#[test]
fn gathering_minds_the_provider_filter() {
    let mut a = args();
    a.provider = Some(ProviderFilter::CursorAgent);
    let batches = vec![
        ProviderBatch {
            kind: ProviderKind::Claude,
            conversations: vec![conv("other", 1)],
            present: vec![true],
        },
        ProviderBatch {
            kind: ProviderKind::CursorAgent,
            conversations: vec![conv("agent", 2)],
            present: vec![true],
        },
    ];
    assert_eq!(ids(&gather_victims(batches, &a, at(500), at(500))), vec!["agent"]);
}

#[test]
fn minimum_age() {
    let mut a = args();
    assert_eq!(parse_min_age(&a).unwrap(), 3600);
    a.min_age = "later".to_string();
    assert_eq!(config_error(parse_min_age(&a).unwrap_err()), "invalid --min-age: later");
    let t = min_age_threshold(at(10_000), 3600).unwrap();
    assert_eq!((t.secs, t.nanos), (6_400, 0));
    let unbounded = min_age_threshold(at(10_000), u64::MAX).unwrap();
    assert_eq!((unbounded.secs, unbounded.nanos), (10_000, 0));
    assert!(min_age_threshold(at(0), 9_223_372_036_854_775).is_none());
}

#[test]
fn listing_of_victims() {
    let a = Timestamp { secs: 1_700_000_000, nanos: 0, offset: 3600 };
    let mut c = conv("one", 0);
    c.timestamp = a;
    let mut d = conv("two", 0);
    d.timestamp = a;
    d.first_message_time = Some(at(1_600_000_000));
    d.provider = ProviderKind::CursorAgent;
    d.project_name = None;
    d.message_count = 1234;
    let lines = list_victims(&[c, d], &tool(), TimestampSource::FirstMessage, at(1_800_000_000));
    assert_eq!(
        lines,
        vec![
            "Conversations older than 2027-01-15 08:00 (by first message):",
            "  2023-11-14 23:13 Tool              4 msg  proj (mtime)  /data/one.jsonl",
            "  2020-09-13 12:26 Cursor Agent    1234 msg  -  /data/two.jsonl",
            "Total: 2",
        ]
    );
    assert_eq!(
        victim_line_from(&conv("z", 0), &tool(), "T", false),
        "  T Tool              4 msg  proj  /data/z.jsonl"
    );
    assert_eq!(
        no_victims_message(at(0)),
        "No conversations to delete (cutoff 1970-01-01T00:00:00+00:00)."
    );
}

#[test]
fn asking_and_answers() {
    assert_eq!(confirm_prompt(3, 2048), "Delete 3 conversation(s) (2.00 KiB)? [y/N] ");
    assert_eq!(total_size(&[Some(5), None, Some(7)]), 12);
    for yes in ["y", "Y", "yes", "YeS", "  y\n"] {
        assert!(is_confirmed(yes));
    }
    for no in ["", "n", "yep", "y e s", "\n"] {
        assert!(!is_confirmed(no));
    }
}

#[test]
fn steps_of_a_prune() {
    let mut a = args();
    assert_eq!(prune_step(0, &a, true), PruneStep::NothingToDo);
    assert_eq!(prune_step(2, &a, true), PruneStep::Confirm);
    assert_eq!(prune_step(2, &a, false), PruneStep::RefuseWithoutTerminal);
    a.yes = true;
    assert_eq!(prune_step(2, &a, true), PruneStep::Proceed);
    assert_eq!(prune_step(2, &a, false), PruneStep::Proceed);
    a.dry_run = true;
    assert_eq!(prune_step(2, &a, true), PruneStep::DryRun);
    a.yes = false;
    assert_eq!(prune_step(2, &a, false), PruneStep::DryRun);
}

#[test]
fn tallies() {
    let mut tally = Tally::new();
    tally.record(true);
    tally.record(true);
    assert_eq!(tally.summary_text(2), "Deleted 2/2 conversation(s).");
    assert!(tally.outcome(2).is_ok());
    tally.record(false);
    assert_eq!(tally.summary_text(3), "Deleted 2/3 conversation(s) (1 failed).");
    assert!(tally.outcome(3).is_ok());
    let mut bad = Tally::new();
    bad.record(false);
    assert!(matches!(
        bad.outcome(1),
        Err(AppError::ClaudeExecutionError(text)) if text == "All deletions failed"
    ));
}

#[test]
fn trashed_conversations_count_as_deleted() {
    assert_eq!(removal_step(false, true), RemovalStep::NoProvider);
    assert_eq!(removal_step(true, true), RemovalStep::DropRow);
    assert_eq!(removal_step(true, false), RemovalStep::Delete);
    let mut tally = Tally::new();
    tally.finish(RemovalStep::DropRow, false);
    tally.finish(RemovalStep::Delete, true);
    assert_eq!((tally.deleted, tally.failed), (2, 0));
    tally.finish(RemovalStep::Delete, false);
    tally.finish(RemovalStep::NoProvider, true);
    assert_eq!((tally.deleted, tally.failed), (2, 2));
}

#[test]
fn trash_directory() {
    let home = Some("/home/me".to_string());
    assert_eq!(
        trash_dir(&home, at(1_700_000_000)).unwrap(),
        "/home/me/.local/state/mnemonai/trash/20231114T221320"
    );
    assert_eq!(config_error(trash_dir(&None, at(0)).unwrap_err()), "HOME not set");
}

#[test]
fn trash_moves() {
    let mut c = conv("chat", 0);
    match plan_trash(&c, &tool(), "/t", true) {
        TrashPlan::Move { directory, source, dest } => {
            assert_eq!(directory, "/t/Tool");
            assert_eq!(source, "/data/chat.jsonl");
            assert_eq!(dest, "/t/Tool/chat.jsonl");
        }
        other => panic!("expected a move, got {:?}", other),
    }
    assert!(matches!(plan_trash(&c, &tool(), "/t", false), TrashPlan::Skip));
    c.provider = ProviderKind::Cursor;
    assert!(matches!(plan_trash(&c, &tool(), "/t", true), TrashPlan::Skip));
    c.provider = ProviderKind::CursorAgent;
    c.path = "/p/agent-transcripts/chat/chat.jsonl".to_string();
    match plan_trash(&c, &tool(), "/t", true) {
        TrashPlan::Move { directory, source, dest } => {
            assert_eq!(directory, "/t/Cursor-Agent");
            assert_eq!(source, "/p/agent-transcripts/chat");
            assert_eq!(dest, "/t/Cursor-Agent/chat");
        }
        other => panic!("expected a move, got {:?}", other),
    }
    c.path = "/p/agent-transcripts/other/chat.jsonl".to_string();
    match plan_trash(&c, &tool(), "/t", true) {
        TrashPlan::Move { source, dest, .. } => {
            assert_eq!(source, "/p/agent-transcripts/other/chat.jsonl");
            assert_eq!(dest, "/t/Cursor-Agent/chat.jsonl");
        }
        other => panic!("expected a move, got {:?}", other),
    }
}
