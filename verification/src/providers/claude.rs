//! Conversations of the command line tool that keeps a file for each session.

use crate::error::{AppError, AppErrorView};
use crate::history::{clone_texts, Conversation, ProviderKind, ToolName};
use crate::paths::opt_text;
use crate::providers::{CommandSpec, CommandSpecView};
use crate::text::{concat, texts};
use vstd::prelude::*;

verus! {

/// The provider of the tool's conversations.
#[derive(Debug)]
pub struct ClaudeProvider {
    tool: ToolName,
    current_dir: Option<String>,
    exclude_paths: Vec<String>,
}

/// What a `ClaudeProvider` holds.
pub struct ClaudeProviderView {
    pub label: Seq<char>,
    pub command: Seq<char>,
    pub current_dir: Option<Seq<char>>,
    pub exclude_paths: Seq<Seq<char>>,
}

impl View for ClaudeProvider {
    type V = ClaudeProviderView;

    closed spec fn view(&self) -> ClaudeProviderView {
        ClaudeProviderView {
            label: self.tool.label@,
            command: self.tool.command@,
            current_dir: opt_text(self.current_dir),
            exclude_paths: texts(self.exclude_paths@),
        }
    }
}

/// The command that resumes a conversation.
pub open spec fn resume_command(
    program: Seq<char>,
    conv: &Conversation,
    default_args: Seq<Seq<char>>,
) -> CommandSpecView {
    CommandSpecView {
        program,
        args: seq!["--resume"@, conv.id@] + default_args,
        current_dir: opt_text(conv.project_path)->0,
    }
}

/// Why a conversation cannot be resumed, where it cannot.
pub open spec fn resume_obstacle(conv: &Conversation, project_is_dir: bool) -> Option<AppErrorView> {
    match conv.project_path {
        Some(path) => if project_is_dir {
            None
        } else {
            Some(
                AppErrorView::ClaudeExecutionError(
                    "Project directory no longer exists: "@ + path@,
                ),
            )
        },
        None => Some(
            AppErrorView::ClaudeExecutionError(
                "Cannot determine project directory for this conversation"@,
            ),
        ),
    }
}

impl ClaudeProvider {
    /// `current_dir` is the working directory, where it is known.
    pub fn new(tool: ToolName, exclude_paths: Vec<String>, current_dir: Option<String>) -> (r: Self)
        ensures
            r@.label == tool.label@,
            r@.command == tool.command@,
            r@.current_dir == opt_text(current_dir),
            r@.exclude_paths == texts(exclude_paths@),
    {
        ClaudeProvider { tool, current_dir, exclude_paths }
    }

    pub fn kind(&self) -> (r: ProviderKind)
        ensures
            r == ProviderKind::Claude,
    {
        ProviderKind::Claude
    }

    pub fn name(&self) -> (r: String)
        ensures
            r@ == self@.label + " Code"@,
    {
        concat(self.tool.label.as_str(), " Code")
    }

    /// The directory that conversations are loaded for.
    pub fn load_dir(&self) -> (r: Result<String, AppError>)
        ensures
            match r {
                Ok(dir) => self@.current_dir == Some(dir@),
                Err(e) => self@.current_dir is None && e@ == AppErrorView::Io(
                    "Failed to get current directory"@,
                ),
            },
    {
        match &self.current_dir {
            Some(dir) => Ok(dir.clone()),
            None => Err(AppError::Io("Failed to get current directory".to_owned())),
        }
    }

    /// What is left out when all conversations are loaded.
    pub fn exclude_paths(&self) -> (r: &[String])
        ensures
            texts(r@) == self@.exclude_paths,
    {
        self.exclude_paths.as_slice()
    }

    /// The command that resumes a conversation; `project_is_dir` tells whether its project is a
    /// directory that is still there.
    pub fn plan_resume(
        &self,
        conversation: &Conversation,
        project_is_dir: bool,
        default_args: &Vec<String>,
    ) -> (r: Result<CommandSpec, AppError>)
        ensures
            match r {
                Ok(command) => resume_obstacle(conversation, project_is_dir) is None && command@
                    == resume_command(self@.command, conversation, texts(default_args@)),
                Err(e) => resume_obstacle(conversation, project_is_dir) == Some(e@),
            },
    {
        let project_dir: &String = match &conversation.project_path {
            Some(path) => {
                if !project_is_dir {
                    return Err(
                        AppError::ClaudeExecutionError(
                            concat("Project directory no longer exists: ", path.as_str()),
                        ),
                    );
                }
                path
            },
            None => {
                return Err(
                    AppError::ClaudeExecutionError(
                        "Cannot determine project directory for this conversation".to_owned(),
                    ),
                );
            },
        };
        let mut args: Vec<String> = Vec::new();
        args.push("--resume".to_owned());
        args.push(conversation.id.clone());
        let mut rest: Vec<String> = clone_texts(default_args);
        args.append(&mut rest);
        assert(texts(args@) =~= seq!["--resume"@, conversation.id@] + texts(default_args@));
        Ok(
            CommandSpec {
                program: self.tool.command.clone(),
                args,
                current_dir: project_dir.clone(),
            },
        )
    }
}

/// Whether a resumed session ended well: it succeeded, or the user interrupted it. A session that
/// SIGINT interrupted exits with a code of its own, or is ended by the signal.
pub open spec fn ended_well(success: bool, code: Option<i32>, signal: Option<i32>) -> bool {
    success || code == Some(130i32) || signal == Some(2i32)
}

/// Treat clean exits and SIGINT (Ctrl+C) as a successful return so the dashboard
/// resurfaces silently when the user quits the resumed session.
pub fn treat_status_as_success(success: bool, code: Option<i32>, signal: Option<i32>) -> (r: bool)
    ensures
        r == ended_well(success, code, signal),
{
    if success {
        return true;
    }
    // 130 is the conventional exit code for SIGINT (Ctrl+C), and 2 the signal itself; the user
    // quit on purpose.
    let interrupted: bool = match code {
        Some(c) => c == 130,
        None => false,
    };
    interrupted || match signal {
        Some(s) => s == 2,
        None => false,
    }
}

impl ClaudeProvider {
    /// How a resumed session ended; `status` is the exit status as text.
    pub fn session_result(
        &self,
        success: bool,
        code: Option<i32>,
        signal: Option<i32>,
        status: &str,
    ) -> (r: Result<(), AppError>)
        ensures
            r is Ok <==> ended_well(success, code, signal),
            r matches Err(e) ==> e@ == AppErrorView::ClaudeExecutionError(
                self@.command + " CLI exited with status "@ + status@,
            ),
    {
        if treat_status_as_success(success, code, signal) {
            Ok(())
        } else {
            let start: String = concat(self.tool.command.as_str(), " CLI exited with status ");
            Err(AppError::ClaudeExecutionError(concat(start.as_str(), status)))
        }
    }
}

} // verus!
