use mnemonai::error::AppError;
use mnemonai::history::{Conversation, ProviderKind, ToolName};
use mnemonai::providers::claude::{treat_status_as_success, ClaudeProvider};
use mnemonai::time::Timestamp;

fn tool() -> ToolName {
    ToolName { label: "Tool".to_string(), command: "tool".to_string() }
}

fn conv(project_path: Option<&str>) -> Conversation {
    Conversation {
        path: "/home/me/sessions/p/abc.jsonl".to_string(),
        index: 0,
        provider: ProviderKind::Claude,
        id: "abc".to_string(),
        timestamp: Timestamp { secs: 0, nanos: 0, offset: 0 },
        preview: String::new(),
        full_text: String::new(),
        project_name: None,
        project_path: project_path.map(String::from),
        cwd: None,
        message_count: 0,
        parse_errors: Vec::new(),
        summary: None,
        model: None,
        total_tokens: 0,
        duration_minutes: None,
        first_message_time: None,
        last_message_time: None,
        search_text_lower: None,
        search_topic_end: None,
    }
}

fn execution_error(e: AppError) -> String {
    match e {
        AppError::ClaudeExecutionError(text) => text,
        other => panic!("expected an execution error, got {:?}", other),
    }
}

#[test]
fn sigint_is_treated_as_success() {
    assert!(treat_status_as_success(false, Some(130), None));
}

#[test]
fn nonzero_failure_is_not_success() {
    assert!(!treat_status_as_success(false, Some(1), None));
}

#[test]
fn clean_exits_and_sigint_are_successes() {
    assert!(treat_status_as_success(true, Some(0), None));
    assert!(treat_status_as_success(false, None, Some(2)));
    assert!(!treat_status_as_success(false, None, Some(9)));
    assert!(!treat_status_as_success(false, None, None));
    let provider = ClaudeProvider::new(tool(), Vec::new(), None);
    assert!(provider.session_result(true, Some(0), None, "exit status: 0").is_ok());
    assert!(provider.session_result(false, Some(130), None, "exit status: 130").is_ok());
    assert!(provider.session_result(false, None, Some(2), "signal: 2 (SIGINT)").is_ok());
    assert!(provider.session_result(false, None, Some(15), "signal: 15 (SIGTERM)").is_err());
    assert_eq!(
        execution_error(provider.session_result(false, Some(1), None, "exit status: 1").unwrap_err()),
        "tool CLI exited with status exit status: 1"
    );
}

#[test]
fn the_command_is_the_label_with_its_ascii_letters_in_lower_case() {
    for (label, command) in [("My\u{c4}gent", "my\u{c4}gent"), ("@AZ[`az{ 9", "@az[`az{ 9"), ("", "")] {
        let tool = ToolName::new(label.to_string());
        assert_eq!((tool.label.as_str(), tool.command.as_str()), (label, command));
    }
}

#[test]
fn provider_names_itself() {
    let provider = ClaudeProvider::new(tool(), vec!["/skip".to_string()], Some("/here".to_string()));
    assert_eq!(provider.kind(), ProviderKind::Claude);
    assert_eq!(provider.name(), "Tool Code");
    assert_eq!(provider.exclude_paths(), ["/skip".to_string()]);
    assert_eq!(provider.load_dir().unwrap(), "/here");
    let nowhere = ClaudeProvider::new(tool(), Vec::new(), None);
    assert!(matches!(
        nowhere.load_dir(),
        Err(AppError::Io(text)) if text == "Failed to get current directory"
    ));
}

#[test]
fn resuming_runs_the_tool_in_the_project() {
    let provider = ClaudeProvider::new(tool(), Vec::new(), None);
    let args = vec!["--verbose".to_string()];
    let command = provider.plan_resume(&conv(Some("/code/p")), true, &args).unwrap();
    assert_eq!(command.program, "tool");
    assert_eq!(command.args, vec!["--resume", "abc", "--verbose"]);
    assert_eq!(command.current_dir, "/code/p");
    assert_eq!(
        execution_error(provider.plan_resume(&conv(Some("/code/p")), false, &args).unwrap_err()),
        "Project directory no longer exists: /code/p"
    );
    assert_eq!(
        execution_error(provider.plan_resume(&conv(None), true, &args).unwrap_err()),
        "Cannot determine project directory for this conversation"
    );
}
