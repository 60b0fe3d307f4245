//! What can go wrong.

use vstd::prelude::*;

verus! {

/// Why the program ends without doing what it was asked for.
#[derive(Debug)]
pub enum AppError {
    /// Reading, writing or drawing failed.
    Io(String),
    /// A command could not be run, or failed.
    ClaudeExecutionError(String),
    /// The arguments or the configuration are wrong.
    ConfigError(String),
    /// The user cancelled.
    SelectionCancelled,
    /// There is no history in the named scope.
    NoHistoryFound(String),
}

/// What an `AppError` says.
pub enum AppErrorView {
    Io(Seq<char>),
    ClaudeExecutionError(Seq<char>),
    ConfigError(Seq<char>),
    SelectionCancelled,
    NoHistoryFound(Seq<char>),
}

impl View for AppError {
    type V = AppErrorView;

    open spec fn view(&self) -> AppErrorView {
        match self {
            AppError::Io(m) => AppErrorView::Io(m@),
            AppError::ClaudeExecutionError(m) => AppErrorView::ClaudeExecutionError(m@),
            AppError::ConfigError(m) => AppErrorView::ConfigError(m@),
            AppError::SelectionCancelled => AppErrorView::SelectionCancelled,
            AppError::NoHistoryFound(m) => AppErrorView::NoHistoryFound(m@),
        }
    }
}

} // verus!
