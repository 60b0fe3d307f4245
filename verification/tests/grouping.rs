use mnemonai::history::grouping::{
    display_name_for, group_by_project_path, group_key, ProjectFacts, ProjectGroup,
};
use mnemonai::history::recency::sort_newest_first;
use mnemonai::history::{all_have_valid_times, Conversation, ProviderKind};
use mnemonai::time::Timestamp;

fn make_conv(path: &str, project: Option<&str>, ts: Timestamp, provider: ProviderKind) -> Conversation {
    Conversation {
        path: format!("/tmp/{}.jsonl", path),
        index: 0,
        provider,
        id: path.to_string(),
        timestamp: ts,
        preview: String::new(),
        full_text: String::new(),
        project_name: project.map(String::from),
        project_path: project.map(String::from),
        cwd: None,
        message_count: 0,
        parse_errors: Vec::new(),
        summary: None,
        model: None,
        total_tokens: 0,
        duration_minutes: None,
        first_message_time: None,
        last_message_time: None,
        search_text_lower: None,
        search_topic_end: None,
    }
}

fn ts(secs: i64) -> Timestamp {
    Timestamp { secs, nanos: 0, offset: 0 }
}

/// What is known of a project whose directory is not there.
fn facts_of(conv: &Conversation) -> ProjectFacts {
    let short_name = match &conv.project_path {
        Some(p) => p.rsplit('/').next().unwrap().to_string(),
        None => String::new(),
    };
    ProjectFacts { canonical: None, short_name, exists: false }
}

fn group(convs: &[Conversation]) -> Vec<ProjectGroup> {
    let facts: Vec<ProjectFacts> = convs.iter().map(facts_of).collect();
    group_by_project_path(convs, &facts)
}

#[test]
fn buckets_by_project_path() {
    let convs = vec![
        make_conv("a", Some("/code/proj-a"), ts(100), ProviderKind::Claude),
        make_conv("b", Some("/code/proj-b"), ts(200), ProviderKind::Claude),
        make_conv("c", Some("/code/proj-a"), ts(300), ProviderKind::Cursor),
    ];
    let groups = group(&convs);
    assert_eq!(groups.len(), 2);
    // Newest activity first: proj-a (300) before proj-b (200)
    assert_eq!(groups[0].canonical_path.as_deref(), Some("/code/proj-a"));
    assert_eq!(groups[0].conversation_indices, vec![2, 0]);
    assert_eq!(groups[0].last_activity, ts(300));
    assert!(groups[0].providers.contains(&ProviderKind::Claude));
    assert!(groups[0].providers.contains(&ProviderKind::Cursor));

    assert_eq!(groups[1].canonical_path.as_deref(), Some("/code/proj-b"));
    assert_eq!(groups[1].conversation_indices, vec![1]);
}

#[test]
fn unknown_bucket_for_missing_path() {
    let convs = vec![
        make_conv("a", None, ts(100), ProviderKind::Claude),
        make_conv("b", Some("/code/proj"), ts(200), ProviderKind::Claude),
    ];
    let groups = group(&convs);
    assert_eq!(groups.len(), 2);
    // proj has activity 200, unknown has 100
    assert!(groups[0].canonical_path.is_some());
    assert!(groups[1].canonical_path.is_none());
    assert_eq!(groups[1].display_name, "<unknown>");
}

#[test]
fn last_activity_is_max_in_group() {
    let convs = vec![
        make_conv("a", Some("/code/proj"), ts(100), ProviderKind::Claude),
        make_conv("b", Some("/code/proj"), ts(500), ProviderKind::Claude),
        make_conv("c", Some("/code/proj"), ts(300), ProviderKind::Claude),
    ];
    let groups = group(&convs);
    assert_eq!(groups.len(), 1);
    assert_eq!(groups[0].last_activity, ts(500));
    // Sorted newest first: b(500), c(300), a(100)
    assert_eq!(groups[0].conversation_indices, vec![1, 2, 0]);
}

#[test]
fn canonical_paths_bring_links_together() {
    let convs = vec![
        make_conv("a", Some("/link"), ts(1), ProviderKind::Claude),
        make_conv("b", Some("/real/"), ts(2), ProviderKind::Claude),
    ];
    let facts = vec![
        ProjectFacts { canonical: Some("/real".to_string()), short_name: "real".to_string(), exists: true },
        ProjectFacts { canonical: Some("/real".to_string()), short_name: "real".to_string(), exists: true },
    ];
    let groups = group_by_project_path(&convs, &facts);
    assert_eq!(groups.len(), 1);
    assert_eq!(groups[0].display_name, "real");
    assert_eq!(groups[0].conversation_indices, vec![1, 0]);
}

#[test]
fn keys_and_names() {
    let with = make_conv("a", Some("/code/p"), ts(1), ProviderKind::Claude);
    let without = make_conv("b", None, ts(1), ProviderKind::Claude);
    let mut named = make_conv("c", None, ts(1), ProviderKind::Claude);
    named.project_name = Some("N".to_string());
    let facts = ProjectFacts { canonical: None, short_name: "short".to_string(), exists: false };
    assert_eq!(group_key(&with, &facts), Some("/code/p".to_string()));
    assert_eq!(group_key(&without, &facts), None);
    let key = Some("/code/p".to_string());
    assert_eq!(display_name_for(&with, &key, &facts), "short");
    assert_eq!(display_name_for(&without, &None, &facts), "<unknown>");
    assert_eq!(display_name_for(&named, &None, &facts), "N");
}

#[test]
fn every_conversation_is_in_one_group() {
    let convs: Vec<Conversation> = (0..12)
        .map(|i| {
            let project = ["/p/a", "/p/b", "/p/c"][i % 3];
            let project = if i % 4 == 0 { None } else { Some(project) };
            make_conv(&i.to_string(), project, ts((i as i64 * 7) % 5), ProviderKind::Claude)
        })
        .collect();
    let groups = group(&convs);
    let mut seen: Vec<usize> =
        groups.iter().flat_map(|g| g.conversation_indices.iter().copied()).collect();
    seen.sort();
    assert_eq!(seen, (0..12).collect::<Vec<usize>>());
    for pair in groups.windows(2) {
        assert!(pair[0].last_activity.secs >= pair[1].last_activity.secs);
    }
}

#[test]
fn newest_first_is_stable_and_numbers_the_list() {
    let sorted = sort_newest_first(vec![
        make_conv("a", None, ts(1), ProviderKind::Claude),
        make_conv("b", None, ts(3), ProviderKind::Claude),
        make_conv("c", None, ts(1), ProviderKind::Claude),
        make_conv("d", None, ts(2), ProviderKind::Claude),
    ]);
    let ids: Vec<&str> = sorted.iter().map(|c| c.id.as_str()).collect();
    assert_eq!(ids, vec!["b", "d", "a", "c"]);
    let numbers: Vec<usize> = sorted.iter().map(|c| c.index).collect();
    assert_eq!(numbers, vec![0, 1, 2, 3]);
}

#[test]
fn no_conversations_make_no_groups() {
    assert!(group(&[]).is_empty());
}

#[test]
fn times_outside_the_calendar_are_found() {
    assert!(ts(0).is_in_calendar());
    assert!(!ts(i64::MAX).is_in_calendar());
    assert!(!ts(i64::MIN).is_in_calendar());
    assert!(!Timestamp { offset: 86_400, ..ts(0) }.is_in_calendar());
    assert!(!Timestamp { offset: -86_400, ..ts(0) }.is_in_calendar());
    // A leap second lies inside the last second of a minute.
    assert!(Timestamp { nanos: 1_500_000_000, ..ts(59) }.is_in_calendar());
    assert!(Timestamp { nanos: 1_500_000_000, ..ts(-1) }.is_in_calendar());
    assert!(!Timestamp { nanos: 1_500_000_000, ..ts(60) }.is_in_calendar());
    assert!(!Timestamp { nanos: 2_000_000_000, ..ts(59) }.is_in_calendar());

    let good = make_conv("a", None, ts(100), ProviderKind::Cursor);
    assert!(good.has_valid_times());
    let mut bad = make_conv("b", None, ts(100), ProviderKind::Cursor);
    bad.last_message_time = Some(ts(i64::MAX));
    assert!(!bad.has_valid_times());
    bad.last_message_time = None;
    bad.first_message_time = Some(ts(i64::MIN));
    assert!(!bad.has_valid_times());
    assert!(all_have_valid_times(&[]));
    assert!(!all_have_valid_times(&[good, bad]));
}
