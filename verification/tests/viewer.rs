use mnemonai::history::grouping::ProjectFacts;
use mnemonai::history::{ContentBlock, Conversation, LogEntry, ProviderKind, ToolName, UserMessage};
use mnemonai::time::Timestamp;
use mnemonai::tui::app::{App, AppMode};
use mnemonai::tui::keys::{Action, DialogMode, Effect, KeyCode, KeyModifiers, KeyOutcome};
use mnemonai::tui::lines::{find_matches, line_matches_query, LineStyle, RenderedLine};
use mnemonai::tui::requests::{kept_entries, single_file_project, EntrySource};
use mnemonai::tui::view_state::{ToolDisplayMode, ViewSearchMode, ViewState};

const VIEWPORT: usize = 10;

fn tool() -> ToolName {
    ToolName { label: "Tool".to_string(), command: "tool".to_string() }
}

fn conv(id: &str) -> Conversation {
    Conversation {
        path: format!("/data/{}.jsonl", id),
        index: 0,
        provider: ProviderKind::CursorAgent,
        id: id.to_string(),
        timestamp: Timestamp { secs: 5, nanos: 0, offset: 0 },
        preview: String::new(),
        full_text: String::new(),
        project_name: None,
        project_path: None,
        cwd: None,
        message_count: 1,
        parse_errors: Vec::new(),
        summary: None,
        model: None,
        total_tokens: 0,
        duration_minutes: None,
        first_message_time: None,
        last_message_time: None,
        search_text_lower: None,
        search_topic_end: None,
    }
}

fn fact() -> ProjectFacts {
    ProjectFacts { canonical: None, short_name: String::new(), exists: true }
}

fn line(text: &str) -> RenderedLine {
    let style = LineStyle { fg: None, bold: false, dimmed: false, italic: false };
    RenderedLine { spans: vec![(text.to_string(), style)] }
}

fn lines(n: usize) -> Vec<RenderedLine> {
    (0..n).map(|i| line(&format!("Line {}", i))).collect()
}

fn entry() -> LogEntry {
    LogEntry::User {
        message: UserMessage {
            role: "user".to_string(),
            content: vec![ContentBlock::Text { text: "hi".to_string() }],
        },
        timestamp: String::new(),
        uuid: None,
        cwd: None,
    }
}

/// The dashboard with a conversation of thirty lines open.
fn reading() -> App {
    let mut app =
        App::new(tool(), vec![conv("a")], vec![fact()], true, ToolDisplayMode::Hidden, false, true);
    app.enter_view_mode(80, Ok((vec![entry()], lines(30))), 0);
    app
}

fn state(app: &App) -> &ViewState {
    match app.app_mode() {
        AppMode::View(state) => state,
        AppMode::List => panic!("nothing is being read"),
    }
}

fn press(app: &mut App, code: KeyCode) -> KeyOutcome {
    app.handle_key(code, KeyModifiers { control: false }, VIEWPORT, 9)
}

fn ctrl(app: &mut App, c: char) -> KeyOutcome {
    app.handle_key(KeyCode::Char(c), KeyModifiers { control: true }, VIEWPORT, 9)
}

#[test]
fn opening_starts_at_the_top() {
    let app = reading();
    let s = state(&app);
    assert_eq!(s.conversation_path, "/data/a.jsonl");
    assert_eq!((s.scroll_offset, s.total_lines, s.content_width), (0, 30, 80));
    assert_eq!(s.search_mode, ViewSearchMode::Off);
    assert_eq!(s.cached_entries.len(), 1);
}

#[test]
fn scrolling_stays_within_the_lines() {
    let mut app = reading();
    press(&mut app, KeyCode::Up);
    assert_eq!(state(&app).scroll_offset, 0);
    press(&mut app, KeyCode::Char('j'));
    press(&mut app, KeyCode::Down);
    assert_eq!(state(&app).scroll_offset, 2);
    press(&mut app, KeyCode::Char('d'));
    assert_eq!(state(&app).scroll_offset, 7);
    ctrl(&mut app, 'd');
    assert_eq!(state(&app).scroll_offset, 12);
    press(&mut app, KeyCode::PageDown);
    assert_eq!(state(&app).scroll_offset, 20);
    press(&mut app, KeyCode::Char('k'));
    press(&mut app, KeyCode::Char('u'));
    assert_eq!(state(&app).scroll_offset, 14);
    ctrl(&mut app, 'u');
    assert_eq!(state(&app).scroll_offset, 9);
    press(&mut app, KeyCode::End);
    assert_eq!(state(&app).scroll_offset, 20);
    press(&mut app, KeyCode::PageUp);
    assert_eq!(state(&app).scroll_offset, 10);
    press(&mut app, KeyCode::Char('g'));
    assert_eq!(state(&app).scroll_offset, 0);
    press(&mut app, KeyCode::Char('G'));
    assert_eq!(state(&app).scroll_offset, 20);
    press(&mut app, KeyCode::Home);
    assert_eq!(state(&app).scroll_offset, 0);
}

#[test]
fn searching_finds_lines_in_any_case() {
    let mut app = reading();
    press(&mut app, KeyCode::Char('/'));
    assert_eq!(state(&app).search_mode, ViewSearchMode::Typing);
    for c in "LINE 1".chars() {
        press(&mut app, KeyCode::Char(c));
    }
    assert_eq!(state(&app).search_matches, vec![1, 10, 11, 12, 13, 14, 15, 16, 17, 18, 19]);
    press(&mut app, KeyCode::Backspace);
    assert_eq!(state(&app).search_query, "LINE ");
    press(&mut app, KeyCode::Char('2'));
    press(&mut app, KeyCode::Char('9'));
    assert_eq!(state(&app).search_matches, vec![29]);
    press(&mut app, KeyCode::Enter);
    assert_eq!(state(&app).search_mode, ViewSearchMode::Active);
    press(&mut app, KeyCode::Esc);
    assert_eq!(state(&app).search_mode, ViewSearchMode::Off);
    assert!(state(&app).search_matches.is_empty());
    assert_eq!(state(&app).search_query, "");
    press(&mut app, KeyCode::Esc);
    assert!(matches!(app.app_mode(), AppMode::List));
}

#[test]
fn matches_are_walked_in_a_circle() {
    let mut app = reading();
    press(&mut app, KeyCode::Char('/'));
    for c in "5".chars() {
        press(&mut app, KeyCode::Char(c));
    }
    assert_eq!(state(&app).search_matches, vec![5, 15, 25]);
    press(&mut app, KeyCode::Enter);
    assert_eq!(state(&app).current_match, 0);
    press(&mut app, KeyCode::Char('n'));
    assert_eq!(state(&app).current_match, 1);
    press(&mut app, KeyCode::Char('n'));
    press(&mut app, KeyCode::Char('n'));
    assert_eq!(state(&app).current_match, 0);
    press(&mut app, KeyCode::Char('N'));
    assert_eq!(state(&app).current_match, 2);
    let offset = state(&app).scroll_offset;
    assert!(offset <= 25 && 25 < offset + VIEWPORT);
}

#[test]
fn a_search_without_matches_ends_at_enter() {
    let mut app = reading();
    press(&mut app, KeyCode::Char('/'));
    press(&mut app, KeyCode::Char('#'));
    press(&mut app, KeyCode::Char('?'));
    assert_eq!(state(&app).search_query, "#?");
    press(&mut app, KeyCode::Enter);
    assert_eq!(state(&app).search_mode, ViewSearchMode::Off);
    press(&mut app, KeyCode::Char('n'));
    assert_eq!(state(&app).scroll_offset, 0);
    press(&mut app, KeyCode::Char('/'));
    press(&mut app, KeyCode::Char('1'));
    press(&mut app, KeyCode::Esc);
    assert_eq!(state(&app).search_query, "");
}

#[test]
fn lines_match_across_their_spans() {
    let style = LineStyle { fg: None, bold: false, dimmed: false, italic: false };
    let two = RenderedLine {
        spans: vec![("Hel".to_string(), style), ("LO \u{c4}".to_string(), style)],
    };
    assert!(line_matches_query(&two, "hello \u{e4}"));
    assert!(!line_matches_query(&two, "help"));
    assert_eq!(find_matches(&vec![line("a"), line("B"), line("ab")], "b"), vec![1, 2]);
}

#[test]
fn settings_ask_for_another_rendering() {
    let mut app = reading();
    assert_eq!(press(&mut app, KeyCode::Char('t')).effect, Effect::ReRender);
    assert_eq!(state(&app).tool_display, ToolDisplayMode::Truncated);
    press(&mut app, KeyCode::Char('t'));
    assert_eq!(state(&app).tool_display, ToolDisplayMode::Full);
    press(&mut app, KeyCode::Char('t'));
    assert_eq!(state(&app).tool_display, ToolDisplayMode::Hidden);
    assert_eq!(press(&mut app, KeyCode::Char('T')).effect, Effect::ReRender);
    assert!(state(&app).show_thinking);
    assert_eq!(press(&mut app, KeyCode::Char('i')).effect, Effect::ReRender);
    assert!(state(&app).show_timing);
    let request = app.plan_re_render(&[]).unwrap();
    assert_eq!(request.source, EntrySource::Cached);
    assert_eq!(request.options.assistant_label, "Cursor Agent");
    assert!(request.options.show_thinking && request.options.show_timing);
    assert_eq!(app.check_view_resize(80), Effect::Nothing);
    assert_eq!(app.check_view_resize(60), Effect::ReRender);
    assert_eq!(app.plan_re_render(&[]).unwrap().options.content_width, 60);
    assert!(ToolDisplayMode::Full.is_visible());
    assert!(!ToolDisplayMode::Hidden.is_visible());
}

#[test]
fn rendering_again_keeps_the_offset_in_range() {
    let mut app = reading();
    press(&mut app, KeyCode::End);
    app.re_render_view(None, Some(lines(12)), VIEWPORT);
    assert_eq!(state(&app).total_lines, 12);
    assert_eq!(state(&app).scroll_offset, 2);
    assert_eq!(state(&app).cached_entries.len(), 1);
    app.re_render_view(Some(vec![entry(), entry()]), None, VIEWPORT);
    assert_eq!(state(&app).total_lines, 12);
    assert_eq!(state(&app).cached_entries.len(), 2);
}

#[test]
fn view_keys_that_ask_or_tell() {
    let mut app = reading();
    press(&mut app, KeyCode::Char('p'));
    assert_eq!(app.status_message(), Some(&("/data/a.jsonl".to_string(), 9)));
    press(&mut app, KeyCode::Char('?'));
    assert_eq!(*app.dialog_mode(), DialogMode::Help);
    press(&mut app, KeyCode::Char('?'));
    assert!(matches!(
        ctrl(&mut app, 'r').action,
        Some(Action::Resume(path)) if path == "/data/a.jsonl"
    ));
    assert!(matches!(ctrl(&mut app, 'c').action, Some(Action::Quit)));
    ctrl(&mut app, 'x');
    assert_eq!(*app.dialog_mode(), DialogMode::ConfirmDelete);
    assert!(matches!(
        press(&mut app, KeyCode::Char('y')).action,
        Some(Action::Delete(path)) if path == "/data/a.jsonl"
    ));
    app.finish_deletion(false);
    assert_eq!(app.conversations().len(), 1);
    assert!(matches!(app.app_mode(), AppMode::View(_)));
    app.finish_deletion(true);
    assert!(app.conversations().is_empty());
    assert!(matches!(app.app_mode(), AppMode::List));
    assert!(app.plan_re_render(&[]).is_none());
}

#[test]
fn a_single_file_is_only_read() {
    let mut app = App::new_single_file(
        tool(),
        "/data/x.jsonl".to_string(),
        Some((conv("x"), fact())),
        "label".to_string(),
        false,
        ToolDisplayMode::Hidden,
        true,
    );
    assert!(app.is_single_file_mode());
    assert_eq!(app.conversations()[0].project_name.as_deref(), Some("label"));
    let request = app.plan_re_render(&[ProviderKind::CursorAgent]).unwrap();
    assert_eq!(request.source, EntrySource::Provider { conv_idx: 0 });
    ctrl(&mut app, 'x');
    assert_eq!(*app.dialog_mode(), DialogMode::Closed);
    assert!(ctrl(&mut app, 'r').action.is_none());
    assert!(matches!(press(&mut app, KeyCode::Char('q')).action, Some(Action::Quit)));
    assert!(matches!(press(&mut app, KeyCode::Esc).action, Some(Action::Quit)));

    let unread = App::new_single_file(
        tool(),
        "/data/y.jsonl".to_string(),
        None,
        String::new(),
        false,
        ToolDisplayMode::Hidden,
        true,
    );
    let request = unread.plan_re_render(&[]).unwrap();
    assert_eq!(request.source, EntrySource::File);
    assert_eq!(request.options.assistant_label, "Tool");
}

#[test]
fn entries_are_kept_where_a_provider_read_them() {
    let from_provider = EntrySource::Provider { conv_idx: 3 };
    assert_eq!(kept_entries(from_provider, Vec::new()).map(|entries| entries.len()), Some(0));
    assert!(kept_entries(EntrySource::File, Vec::new()).is_none());
    assert!(kept_entries(EntrySource::Cached, Vec::new()).is_none());
}

#[test]
fn a_single_file_is_named_by_its_working_directory_or_itself() {
    let cwd = Some("/code/app".to_string());
    assert_eq!(single_file_project(&cwd, "/data/a.jsonl"), "/code/app");
    assert_eq!(single_file_project(&None, "/data/a.jsonl"), "/data/a.jsonl");
}
