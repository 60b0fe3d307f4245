use mnemonai::history::grouping::ProjectFacts;
use mnemonai::history::{Conversation, ProviderKind, ToolName};
use mnemonai::time::Timestamp;
use mnemonai::tui::app::{App, AppMode};
use mnemonai::tui::keys::{
    export_option, Action, DialogMode, Effect, KeyCode, KeyModifiers, KeyOutcome, ListViewMode,
    LoadingState, PaneFocus,
};
use mnemonai::tui::lines::{LineStyle, RenderedLine};
use mnemonai::tui::model::SearchableConversation;
use mnemonai::tui::requests::{
    copy_result_message, export_filename, export_filename_at, find_conversation, frame_layout, CopyKind, Dispatch,
    EnterStep, EntrySource, ExportFormat, ExportOutcome, LoaderEvent, LoaderStep, PreviewPlan,
};
use mnemonai::tui::rows::Row;
use mnemonai::tui::view_state::ToolDisplayMode;

const VIEWPORT: usize = 10;

fn tool() -> ToolName {
    ToolName { label: "Tool".to_string(), command: "tool".to_string() }
}

fn conv(id: &str, project: Option<&str>, secs: i64) -> Conversation {
    Conversation {
        path: format!("/data/{}.jsonl", id),
        index: 0,
        provider: ProviderKind::Claude,
        id: id.to_string(),
        timestamp: Timestamp { secs, nanos: 0, offset: 0 },
        preview: String::new(),
        full_text: String::new(),
        project_name: None,
        project_path: project.map(String::from),
        cwd: None,
        message_count: 1,
        parse_errors: Vec::new(),
        summary: None,
        model: None,
        total_tokens: 0,
        duration_minutes: None,
        first_message_time: None,
        last_message_time: None,
        search_text_lower: None,
        search_topic_end: None,
    }
}

fn fact(exists: bool) -> ProjectFacts {
    ProjectFacts { canonical: None, short_name: "p".to_string(), exists }
}

fn sample() -> Vec<Conversation> {
    vec![
        conv("a", Some("/p/one"), 400),
        conv("b", Some("/p/two"), 300),
        conv("c", Some("/p/one"), 200),
        conv("d", Some("/p/two"), 100),
    ]
}

fn grouped() -> App {
    let facts = (0..4).map(|_| fact(true)).collect();
    App::new(tool(), sample(), facts, true, ToolDisplayMode::Truncated, false, false)
}

fn flat() -> App {
    let mut app = grouped();
    app.handle_key(KeyCode::Char('G'), plain(), VIEWPORT, 0);
    app
}

fn plain() -> KeyModifiers {
    KeyModifiers { control: false }
}

fn press(app: &mut App, code: KeyCode) -> KeyOutcome {
    app.handle_key(code, plain(), VIEWPORT, 7)
}

fn ctrl(app: &mut App, c: char) -> KeyOutcome {
    app.handle_key(KeyCode::Char(c), KeyModifiers { control: true }, VIEWPORT, 7)
}

fn line(text: &str) -> RenderedLine {
    let style = LineStyle { fg: None, bold: false, dimmed: false, italic: false };
    RenderedLine { spans: vec![(text.to_string(), style)] }
}

fn lines(n: usize) -> Vec<RenderedLine> {
    (0..n).map(|i| line(&format!("line {}", i))).collect()
}

fn ids(app: &App) -> Vec<&str> {
    app.conversations().iter().map(|c| c.id.as_str()).collect()
}

fn rows(app: &App) -> Vec<String> {
    app.rows()
        .iter()
        .map(|row| match row {
            Row::Header { group_idx } => format!("#{}", group_idx),
            Row::Conversation { group_idx, conv_idx } => {
                format!("{}:{}", group_idx, app.conversations()[*conv_idx].id)
            }
        })
        .collect()
}

fn selected_id(app: &App) -> Option<&str> {
    app.selected_conversation().map(|i| app.conversations()[i].id.as_str())
}

fn is_action(outcome: &KeyOutcome, expected: &str) -> bool {
    match &outcome.action {
        Some(Action::Select(path)) => format!("select {}", path) == expected,
        Some(Action::Delete(path)) => format!("delete {}", path) == expected,
        Some(Action::Resume(path)) => format!("resume {}", path) == expected,
        Some(Action::Quit) => expected == "quit",
        None => expected == "none",
    }
}

#[test]
fn starts_grouped_with_the_latest_group_open() {
    let app = grouped();
    assert_eq!(app.view_mode(), ListViewMode::Grouped);
    assert_eq!(rows(&app), vec!["#0", "0:a", "0:c", "#1"]);
    assert_eq!(app.selected_row(), Some(0));
    assert_eq!(app.filtered(), [0, 1, 2, 3]);
    assert_eq!(app.selected(), Some(0));
    assert!(app.is_group_expanded(0));
    assert!(!app.is_group_expanded(1));
    assert!(!app.is_group_expanded(9));
    assert!(app.is_selected_row_header());
    assert!(app.preview_visible());
    assert!(app.use_relative_time());
    assert_eq!(*app.loading_state(), LoadingState::Ready);
    assert_eq!(*app.dialog_mode(), DialogMode::Closed);
    assert!(matches!(app.app_mode(), AppMode::List));
    assert_eq!(app.query(), "");
    assert_eq!(app.cursor_pos(), 0);
    assert!(app.status_message().is_none());
    assert!(!app.is_single_file_mode());
    assert_eq!(app.groups().len(), 2);
    assert_eq!(app.facts().len(), 4);
}

#[test]
fn deleted_projects_are_left_out_unless_asked_for() {
    let convs = || vec![conv("a", Some("/gone"), 1), conv("b", None, 2), conv("c", Some("/p"), 3)];
    let facts = || vec![fact(false), fact(false), fact(true)];
    let app = App::new(tool(), convs(), facts(), true, ToolDisplayMode::Full, false, false);
    assert_eq!(ids(&app), vec!["b", "c"]);
    let app = App::new(tool(), convs(), facts(), true, ToolDisplayMode::Full, false, true);
    assert_eq!(ids(&app), vec!["a", "b", "c"]);
}

#[test]
fn row_navigation() {
    let mut app = grouped();
    press(&mut app, KeyCode::Up);
    assert_eq!(app.selected_row(), Some(0));
    press(&mut app, KeyCode::Down);
    assert_eq!(app.selected_row(), Some(1));
    assert_eq!(selected_id(&app), Some("a"));
    ctrl(&mut app, 'n');
    assert_eq!(selected_id(&app), Some("c"));
    ctrl(&mut app, 'p');
    assert_eq!(app.selected_row(), Some(1));
    press(&mut app, KeyCode::End);
    assert_eq!(app.selected_row(), Some(3));
    assert_eq!(selected_id(&app), Some("b"));
    press(&mut app, KeyCode::Down);
    assert_eq!(app.selected_row(), Some(3));
    press(&mut app, KeyCode::PageUp);
    assert_eq!(app.selected_row(), Some(0));
    press(&mut app, KeyCode::PageDown);
    assert_eq!(app.selected_row(), Some(3));
    press(&mut app, KeyCode::Home);
    assert_eq!(app.selected_row(), Some(0));
    app.handle_key(KeyCode::Char('d'), KeyModifiers { control: true }, 4, 0);
    assert_eq!(app.selected_row(), Some(2));
    app.handle_key(KeyCode::Char('u'), KeyModifiers { control: true }, 2, 0);
    assert_eq!(app.selected_row(), Some(1));
}

#[test]
fn flat_navigation() {
    let mut app = flat();
    assert_eq!(app.view_mode(), ListViewMode::Flat);
    press(&mut app, KeyCode::Down);
    assert_eq!(app.selected(), Some(1));
    press(&mut app, KeyCode::PageDown);
    assert_eq!(app.selected(), Some(3));
    assert_eq!(selected_id(&app), Some("d"));
    press(&mut app, KeyCode::Up);
    assert_eq!(app.selected(), Some(2));
    press(&mut app, KeyCode::Home);
    assert_eq!(app.selected(), Some(0));
    press(&mut app, KeyCode::End);
    assert_eq!(app.selected(), Some(3));
    press(&mut app, KeyCode::PageUp);
    assert_eq!(app.selected(), Some(0));
    app.handle_key(KeyCode::Char('d'), KeyModifiers { control: true }, 5, 0);
    assert_eq!(app.selected(), Some(2));
    app.handle_key(KeyCode::Char('u'), KeyModifiers { control: true }, 5, 0);
    assert_eq!(app.selected(), Some(0));
}

#[test]
fn view_toggles_back_and_forth() {
    let mut app = grouped();
    let before = rows(&app);
    press(&mut app, KeyCode::Char('G'));
    assert_eq!(app.view_mode(), ListViewMode::Flat);
    press(&mut app, KeyCode::Char('G'));
    assert_eq!(app.view_mode(), ListViewMode::Grouped);
    assert_eq!(rows(&app), before);
    assert_eq!(app.query(), "");
}

#[test]
fn groups_expand_and_collapse() {
    let mut app = grouped();
    press(&mut app, KeyCode::Tab);
    assert_eq!(rows(&app), vec!["#0", "#1"]);
    press(&mut app, KeyCode::Tab);
    assert_eq!(rows(&app), vec!["#0", "0:a", "0:c", "#1"]);
    press(&mut app, KeyCode::Char('*'));
    assert_eq!(rows(&app), vec!["#0", "0:a", "0:c", "#1", "1:b", "1:d"]);
    press(&mut app, KeyCode::Char('2'));
    assert_eq!(app.selected_row(), Some(3));
    press(&mut app, KeyCode::Char('7'));
    assert_eq!(app.selected_row(), Some(3));
    press(&mut app, KeyCode::End);
    press(&mut app, KeyCode::Tab);
    assert_eq!(rows(&app), vec!["#0", "0:a", "0:c", "#1"]);
    assert_eq!(app.selected_row(), Some(0));
    press(&mut app, KeyCode::BackTab);
    assert_eq!(rows(&app), vec!["#0", "#1"]);
    app.toggle_selected_group();
    assert_eq!(rows(&app), vec!["#0", "0:a", "0:c", "#1"]);
}

#[test]
fn typing_searches_and_erasing_undoes_it() {
    let mut app = flat();
    assert_eq!(press(&mut app, KeyCode::Char('x')).effect, Effect::Search);
    assert_eq!(press(&mut app, KeyCode::Char('\u{e9}')).effect, Effect::Search);
    assert_eq!(app.query(), "x\u{e9}");
    assert_eq!(app.cursor_pos(), 2);
    press(&mut app, KeyCode::Left);
    press(&mut app, KeyCode::Char('y'));
    assert_eq!(app.query(), "xy\u{e9}");
    assert_eq!(press(&mut app, KeyCode::Backspace).effect, Effect::Search);
    assert_eq!((app.query(), app.cursor_pos()), ("x\u{e9}", 1));
    press(&mut app, KeyCode::Delete);
    assert_eq!((app.query(), app.cursor_pos()), ("x", 1));
    assert_eq!(press(&mut app, KeyCode::Delete).effect, Effect::Nothing);
    press(&mut app, KeyCode::Right);
    assert_eq!(app.cursor_pos(), 1);
    press(&mut app, KeyCode::Backspace);
    assert_eq!(press(&mut app, KeyCode::Backspace).effect, Effect::Nothing);
    assert_eq!((app.query(), app.cursor_pos()), ("", 0));
}

#[test]
fn search_results_make_the_rows() {
    let mut app = grouped();
    press(&mut app, KeyCode::Down);
    press(&mut app, KeyCode::Char('q'));
    assert!(app.narrow_hint().is_none());
    app.update_filter(vec![3], "  q  w ");
    assert_eq!(app.filtered(), [3]);
    assert_eq!(app.query_words(), ["q".to_string(), "w".to_string()]);
    assert_eq!(rows(&app), vec!["#1", "1:d"]);
    assert_eq!(app.selected_row(), Some(0));
    assert!(app.is_group_expanded(1));
    press(&mut app, KeyCode::Char('r'));
    assert_eq!(app.narrow_hint(), Some(&vec![3]));
    app.update_filter(Vec::new(), "qr");
    assert!(rows(&app).is_empty());
    assert_eq!(app.selected_row(), None);
    assert_eq!(app.selected(), None);
    assert_eq!(selected_id(&app), None);
    app.refresh_query_words("a b");
    assert_eq!(app.query_words().len(), 2);
}

#[test]
fn words_are_deleted_backwards() {
    let mut app = flat();
    for c in "foo bar  ".chars() {
        press(&mut app, KeyCode::Char(c));
    }
    assert_eq!(ctrl(&mut app, 'w').effect, Effect::DeleteWord);
    let separators: Vec<bool> = app.query().chars().map(|c| c == ' ').collect();
    assert_eq!(app.delete_word_backwards(&separators), Effect::Search);
    assert_eq!((app.query(), app.cursor_pos()), ("foo ", 4));
    let separators: Vec<bool> = app.query().chars().map(|c| c == ' ').collect();
    app.delete_word_backwards(&separators);
    assert_eq!((app.query(), app.cursor_pos()), ("", 0));
    assert_eq!(app.delete_word_backwards(&[]), Effect::Nothing);
}

#[test]
fn actions_on_the_selected_conversation() {
    let mut app = grouped();
    assert!(is_action(&press(&mut app, KeyCode::Esc), "quit"));
    assert!(is_action(&ctrl(&mut app, 'c'), "quit"));
    assert!(is_action(&press(&mut app, KeyCode::Enter), "none"));
    assert!(is_action(&ctrl(&mut app, 'r'), "resume /data/a.jsonl"));
    press(&mut app, KeyCode::End);
    assert!(is_action(&ctrl(&mut app, 'o'), "select /data/b.jsonl"));
    ctrl(&mut app, 'x');
    assert_eq!(*app.dialog_mode(), DialogMode::ConfirmDelete);
    assert!(is_action(&press(&mut app, KeyCode::Enter), "none"));
    assert!(is_action(&press(&mut app, KeyCode::Char('n')), "none"));
    assert_eq!(*app.dialog_mode(), DialogMode::Closed);
    ctrl(&mut app, 'x');
    assert!(is_action(&press(&mut app, KeyCode::Char('Y')), "delete /data/b.jsonl"));
    assert_eq!(*app.dialog_mode(), DialogMode::Closed);
}

#[test]
fn nothing_is_asked_about_an_empty_list() {
    let mut app =
        App::new(tool(), Vec::new(), Vec::new(), true, ToolDisplayMode::Hidden, false, false);
    ctrl(&mut app, 'x');
    assert_eq!(*app.dialog_mode(), DialogMode::Closed);
    assert!(is_action(&ctrl(&mut app, 'r'), "none"));
    assert!(is_action(&ctrl(&mut app, 'o'), "none"));
    press(&mut app, KeyCode::Down);
    press(&mut app, KeyCode::PageDown);
    assert_eq!(app.selected_row(), None);
    assert!(app.plan_view(80, &[]).is_none());
    app.remove_selected_from_list();
    assert!(app.into_conversations().is_empty());
}

#[test]
fn removal_takes_the_selected_row_out() {
    let mut app = grouped();
    app.set_searchable(vec![
        SearchableConversation { index: 2, text_lower: "c".to_string(), topic_end: 1 },
        SearchableConversation { index: 0, text_lower: "a".to_string(), topic_end: 1 },
        SearchableConversation { index: 3, text_lower: "d".to_string(), topic_end: 1 },
    ]);
    press(&mut app, KeyCode::Down);
    press(&mut app, KeyCode::Down);
    assert_eq!(selected_id(&app), Some("c"));
    app.remove_selected_from_list();
    assert_eq!(ids(&app), vec!["a", "b", "d"]);
    assert_eq!(app.filtered(), [0, 1, 2]);
    assert_eq!(rows(&app), vec!["#0", "0:a", "#1"]);
    let kept: Vec<(usize, &str)> =
        app.searchable().iter().map(|s| (s.index, s.text_lower.as_str())).collect();
    assert_eq!(kept, vec![(0, "a"), (2, "d")]);
}

#[test]
fn removal_in_the_flat_list_keeps_the_place() {
    let mut app = flat();
    press(&mut app, KeyCode::End);
    app.remove_selected_from_list();
    assert_eq!(ids(&app), vec!["a", "b", "c"]);
    assert_eq!(app.selected(), Some(2));
    press(&mut app, KeyCode::Home);
    app.remove_selected_from_list();
    assert_eq!(ids(&app), vec!["b", "c"]);
    assert_eq!(app.selected(), Some(0));
}

#[test]
fn preview_pane() {
    let mut app = grouped();
    app.set_preview_viewport_height(4);
    app.ensure_preview(40, Some(lines(20)));
    assert_eq!(app.preview_lines().len(), 20);
    press(&mut app, KeyCode::Right);
    assert_eq!(app.pane_focus(), PaneFocus::Preview);
    press(&mut app, KeyCode::Char('j'));
    assert_eq!(app.preview_scroll(), 1);
    press(&mut app, KeyCode::PageDown);
    assert_eq!(app.preview_scroll(), 5);
    ctrl(&mut app, 'd');
    assert_eq!(app.preview_scroll(), 7);
    ctrl(&mut app, 'u');
    press(&mut app, KeyCode::Up);
    assert_eq!(app.preview_scroll(), 4);
    press(&mut app, KeyCode::Char('G'));
    assert_eq!(app.preview_scroll(), 16);
    press(&mut app, KeyCode::Down);
    assert_eq!(app.preview_scroll(), 16);
    press(&mut app, KeyCode::PageUp);
    assert_eq!(app.preview_scroll(), 12);
    press(&mut app, KeyCode::Char('g'));
    assert_eq!(app.preview_scroll(), 0);
    assert!(is_action(&press(&mut app, KeyCode::Enter), "select /data/a.jsonl"));
    press(&mut app, KeyCode::Char('?'));
    assert_eq!(*app.dialog_mode(), DialogMode::Help);
    press(&mut app, KeyCode::Char('q'));
    assert_eq!(*app.dialog_mode(), DialogMode::Closed);
    press(&mut app, KeyCode::Char('h'));
    assert_eq!(app.pane_focus(), PaneFocus::List);
    app.focus_preview();
    app.toggle_preview_pane();
    assert!(!app.preview_visible());
    assert_eq!(app.pane_focus(), PaneFocus::List);
    press(&mut app, KeyCode::Char('P'));
    assert!(app.preview_visible());
    app.focus_preview();
    app.focus_list();
    assert_eq!(app.pane_focus(), PaneFocus::List);
    app.invalidate_preview();
    assert!(app.preview_lines().is_empty());
}

#[test]
fn preview_plans_follow_the_selection() {
    let mut app = grouped();
    assert!(matches!(app.plan_preview(40), PreviewPlan::Group { group_idx: 0 }));
    press(&mut app, KeyCode::Down);
    match app.plan_preview(40) {
        PreviewPlan::Conversation { conv_idx, options } => {
            assert_eq!(conv_idx, 0);
            assert_eq!(options.assistant_label, "Tool");
            assert_eq!(options.assistant_color, (218, 119, 86));
            assert_eq!(options.assistant_dim_color, (170, 93, 67));
            assert_eq!(options.content_width, 40);
            assert_eq!(options.tool_display, ToolDisplayMode::Truncated);
            assert!(!options.show_timing);
        }
        other => panic!("expected a conversation, got {:?}", other),
    }
    app.ensure_preview(40, Some(lines(3)));
    assert!(matches!(app.plan_preview(40), PreviewPlan::Current));
    assert!(matches!(app.plan_preview(41), PreviewPlan::Conversation { .. }));
    app.ensure_preview(41, None);
    assert!(app.preview_lines().is_empty());
    assert_eq!(app.preview_width(99), None);
    assert_eq!(app.preview_width(100), Some(46));
    app.toggle_preview_pane();
    assert_eq!(app.preview_width(100), None);
}

#[test]
fn help_opens_and_closes() {
    let mut app = grouped();
    press(&mut app, KeyCode::Char('?'));
    assert_eq!(*app.dialog_mode(), DialogMode::Help);
    press(&mut app, KeyCode::Char('z'));
    assert_eq!(*app.dialog_mode(), DialogMode::Help);
    press(&mut app, KeyCode::Esc);
    assert_eq!(*app.dialog_mode(), DialogMode::Closed);
}

#[test]
fn loading_defers_sorting_and_actions() {
    let mut app = App::new_loading(tool(), false, ToolDisplayMode::Hidden, false, false);
    assert!(app.is_loading());
    app.append_conversations(vec![conv("old", Some("/p"), 1)], vec![fact(true)]);
    let batch = LoaderEvent::Batch {
        conversations: vec![conv("gone", Some("/x"), 5), conv("new", Some("/p"), 9)],
        facts: vec![fact(false), fact(true)],
    };
    assert_eq!(app.handle_loader_event(batch).step, LoaderStep::Again);
    assert_eq!(ids(&app), vec!["old", "new"]);
    assert_eq!(*app.loading_state(), LoadingState::Loading { loaded: 2 });
    assert_eq!(app.enter_step(KeyCode::Enter), EnterStep::Pass);
    assert!(is_action(&ctrl(&mut app, 'r'), "none"));
    assert_eq!(app.query(), "r");
    assert_eq!(press(&mut app, KeyCode::Backspace).effect, Effect::RefreshQueryWords);
    assert_eq!(press(&mut app, KeyCode::Backspace).effect, Effect::Nothing);
    let done = app.handle_loader_event(LoaderEvent::Done);
    assert_eq!(done.step, LoaderStep::Again);
    assert!(done.finished);
    assert_eq!(done.effect, Effect::Nothing);
    assert_eq!(ids(&app), vec!["new", "old"]);
    assert_eq!(app.conversations()[1].index, 1);
    assert_eq!(app.selected(), Some(0));
    assert!(!app.is_loading());
}

#[test]
fn a_query_typed_while_loading_is_searched_afterwards() {
    let mut app = App::new_loading(tool(), false, ToolDisplayMode::Hidden, false, false);
    assert_eq!(press(&mut app, KeyCode::Char('k')).effect, Effect::RefreshQueryWords);
    app.append_conversations(vec![conv("a", None, 1)], vec![fact(true)]);
    assert_eq!(app.finish_loading(), Effect::Search);
    assert_eq!(app.query(), "k");
}

#[test]
fn loader_events() {
    let mut app = App::new_loading(tool(), false, ToolDisplayMode::Hidden, false, false);
    assert_eq!(app.handle_loader_event(LoaderEvent::Idle).step, LoaderStep::Draw);
    assert_eq!(app.handle_loader_event(LoaderEvent::ProjectError).step, LoaderStep::Again);
    assert_eq!(app.handle_loader_event(LoaderEvent::Fatal).step, LoaderStep::Fatal);
    let end = app.handle_loader_event(LoaderEvent::Disconnected);
    assert_eq!(end.step, LoaderStep::NoHistory);
    assert!(end.finished);
    let after = app.handle_loader_event(LoaderEvent::Disconnected);
    assert_eq!(after.step, LoaderStep::Draw);
    assert!(!after.finished);
}

#[test]
fn enter_opens_or_toggles() {
    let mut app = grouped();
    assert_eq!(app.enter_step(KeyCode::Enter), EnterStep::ToggleGroup);
    press(&mut app, KeyCode::Down);
    assert_eq!(app.enter_step(KeyCode::Enter), EnterStep::OpenConversation);
    assert_eq!(app.enter_step(KeyCode::Tab), EnterStep::Pass);
    assert_eq!(flat().enter_step(KeyCode::Enter), EnterStep::OpenConversation);
    press(&mut app, KeyCode::Char('?'));
    assert_eq!(app.enter_step(KeyCode::Enter), EnterStep::Pass);
}

#[test]
fn requests_for_viewing_name_their_source() {
    let mut app = grouped();
    let request = app.plan_view(72, &[ProviderKind::Claude]).unwrap();
    assert_eq!(request.path, "/data/a.jsonl");
    assert_eq!(request.source, EntrySource::Provider { conv_idx: 0 });
    assert_eq!(request.options.assistant_label, "Tool");
    assert_eq!(app.plan_view(72, &[]).unwrap().source, EntrySource::File);
    app.enter_view_mode(72, Err("no such file".to_string()), 11);
    assert_eq!(app.status_message(), Some(&("Failed to open: no such file".to_string(), 11)));
    assert!(matches!(app.app_mode(), AppMode::List));
}

#[test]
fn dispatch_finds_the_provider() {
    let app = grouped();
    let claude = [ProviderKind::Claude];
    assert_eq!(app.dispatch("/data/c.jsonl", &claude), Dispatch::Provider { conv_idx: 2 });
    assert_eq!(
        app.dispatch("/data/c.jsonl", &[]),
        Dispatch::NoProvider { kind: ProviderKind::Claude }
    );
    assert_eq!(app.dispatch("/data/z.jsonl", &claude), Dispatch::Unknown);
    assert_eq!(find_conversation(app.conversations(), "/data/./b.jsonl"), Some(1));
}

#[test]
fn export_menu() {
    assert_eq!(export_option(0), "Ledger (formatted)");
    assert_eq!(export_option(1), "Plain text");
    assert_eq!(export_option(2), "Markdown");
    assert_eq!(export_option(3), "JSONL (raw)");
    let mut app = flat();
    app.enter_view_mode(72, Ok((Vec::new(), lines(3))), 0);
    press(&mut app, KeyCode::Char('e'));
    assert_eq!(*app.dialog_mode(), DialogMode::ExportMenu { selected: 0 });
    for _ in 0..9 {
        press(&mut app, KeyCode::Char('j'));
    }
    assert_eq!(*app.dialog_mode(), DialogMode::ExportMenu { selected: 3 });
    press(&mut app, KeyCode::Up);
    let out = press(&mut app, KeyCode::Enter);
    assert_eq!(out.effect, Effect::Export { option: 2, to_clipboard: false });
    assert_eq!(*app.dialog_mode(), DialogMode::Closed);
    press(&mut app, KeyCode::Char('y'));
    let out = press(&mut app, KeyCode::Char('4'));
    assert_eq!(out.effect, Effect::Export { option: 3, to_clipboard: true });
    press(&mut app, KeyCode::Char('y'));
    assert_eq!(press(&mut app, KeyCode::Esc).effect, Effect::Nothing);

    let request = app.plan_export(2, &[]).unwrap();
    assert_eq!(request.format, ExportFormat::Markdown);
    assert_eq!(request.path, "/data/a.jsonl");
    assert_eq!(request.assistant_label, "Tool");
    assert!(request.show_tools);
    assert!(!request.show_thinking);
    assert!(app.plan_export(4, &[]).is_none());
    app.finish_export(ExportOutcome::Copied, 3);
    assert_eq!(app.status_message().unwrap().1, 3);
    let messages = [
        (ExportOutcome::Copied, "Copied to clipboard"),
        (ExportOutcome::ClipboardError("e".to_string()), "Clipboard error: e"),
        (ExportOutcome::Written("f".to_string()), "Exported to f"),
        (ExportOutcome::WriteError("e".to_string()), "Failed to write: e"),
        (ExportOutcome::ReadError("e".to_string()), "Failed to read: e"),
        (ExportOutcome::Told("t".to_string()), "t"),
    ];
    for (outcome, text) in messages {
        assert_eq!(outcome.message(), text);
    }
    let now = Timestamp { secs: 1_700_000_000, nanos: 0, offset: 0 };
    assert_eq!(export_filename_at(now, "md"), "conversation-2023-11-14-221320.md");
    let current = export_filename("txt");
    assert!(current.starts_with("conversation-20") && current.ends_with(".txt"));
    assert_eq!(current.len(), "conversation-2023-11-14-221320.txt".len());
}

#[test]
fn copying_is_told() {
    let mut app = flat();
    app.enter_view_mode(72, Ok((Vec::new(), lines(3))), 0);
    assert_eq!(press(&mut app, KeyCode::Char('Y')).effect, Effect::CopyPath);
    assert_eq!(press(&mut app, KeyCode::Char('I')).effect, Effect::CopySessionId);
    assert_eq!(app.session_id().as_deref(), Some("a"));
    app.finish_copy(CopyKind::Path, Ok(()), 5);
    assert_eq!(app.status_message(), Some(&("Path copied to clipboard".to_string(), 5)));
    assert_eq!(
        copy_result_message(CopyKind::SessionId, &Ok(())),
        "Session ID copied to clipboard"
    );
    assert_eq!(
        copy_result_message(CopyKind::SessionId, &Err("x".to_string())),
        "Clipboard error: x"
    );
}

#[test]
fn frames_leave_room_for_their_margins() {
    let layout = frame_layout(120, 40);
    assert_eq!((layout.viewport_height, layout.content_width), (37, 108));
    let tiny = frame_layout(3, 1);
    assert_eq!(tiny.viewport_height, 0);
}
