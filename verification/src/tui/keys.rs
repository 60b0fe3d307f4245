//! Keys, and what the dashboard answers to them.

use vstd::prelude::*;

verus! {

/// A key of the terminal.
#[derive(Clone, Copy, Debug, PartialEq, Eq, Structural)]
pub enum KeyCode {
    Esc,
    Enter,
    Left,
    Right,
    Up,
    Down,
    Home,
    End,
    PageUp,
    PageDown,
    Tab,
    BackTab,
    Backspace,
    Delete,
    Char(char),
    /// A key that the dashboard does nothing with.
    Other,
}

/// The keys held down together with a key.
#[derive(Clone, Copy, Debug, PartialEq, Eq, Structural)]
pub struct KeyModifiers {
    pub control: bool,
}

/// Result of running the dashboard.
#[derive(Debug)]
pub enum Action {
    Select(String),
    Delete(String),
    Resume(String),
    Quit,
}

/// What an `Action` says.
pub enum ActionView {
    Select(Seq<char>),
    Delete(Seq<char>),
    Resume(Seq<char>),
    Quit,
}

impl View for Action {
    type V = ActionView;

    open spec fn view(&self) -> ActionView {
        match self {
            Action::Select(p) => ActionView::Select(p@),
            Action::Delete(p) => ActionView::Delete(p@),
            Action::Resume(p) => ActionView::Resume(p@),
            Action::Quit => ActionView::Quit,
        }
    }
}

/// Work that a key asks for and that the dashboard cannot do alone.
#[derive(Clone, Copy, Debug, PartialEq, Eq, Structural)]
pub enum Effect {
    Nothing,
    /// Normalize the query, and hand it to `refresh_query_words`.
    RefreshQueryWords,
    /// Search for the query, and hand the results to `update_filter`.
    Search,
    /// Tell the separators of the query, and hand them to `delete_word_backwards`.
    DeleteWord,
    /// Render the conversation again, and hand the lines to `re_render_view`.
    ReRender,
    /// Export the conversation, and hand the outcome to `finish_export`.
    Export { option: usize, to_clipboard: bool },
    /// Copy the path of the conversation, and hand the outcome to `finish_copy`.
    CopyPath,
    /// Copy the session id of the conversation, and hand the outcome to `finish_copy`.
    CopySessionId,
}

/// The answer to a key: an action that ends the dashboard or that it waits for, and work that
/// the key asks for.
#[derive(Debug)]
pub struct KeyOutcome {
    pub action: Option<Action>,
    pub effect: Effect,
}

/// What a `KeyOutcome` says.
pub struct KeyOutcomeView {
    pub action: Option<ActionView>,
    pub effect: Effect,
}

impl View for KeyOutcome {
    type V = KeyOutcomeView;

    open spec fn view(&self) -> KeyOutcomeView {
        KeyOutcomeView {
            action: match self.action {
                Some(a) => Some(a@),
                None => None,
            },
            effect: self.effect,
        }
    }
}

/// Neither an action nor work.
pub open spec fn quiet() -> KeyOutcomeView {
    KeyOutcomeView { action: None, effect: Effect::Nothing }
}

/// An action, or nothing.
pub open spec fn acts(action: Option<ActionView>) -> KeyOutcomeView {
    KeyOutcomeView { action, effect: Effect::Nothing }
}

/// Work and no action.
pub open spec fn asks(effect: Effect) -> KeyOutcomeView {
    KeyOutcomeView { action: None, effect }
}

impl KeyOutcome {
    pub fn quiet() -> (r: KeyOutcome)
        ensures
            r@ == quiet(),
    {
        KeyOutcome { action: None, effect: Effect::Nothing }
    }

    pub fn quit() -> (r: KeyOutcome)
        ensures
            r@ == acts(Some(ActionView::Quit)),
    {
        KeyOutcome { action: Some(Action::Quit), effect: Effect::Nothing }
    }

    pub fn asks(effect: Effect) -> (r: KeyOutcome)
        ensures
            r@ == asks(effect),
    {
        KeyOutcome { action: None, effect }
    }
}

/// Dialog overlay mode (for confirmations, menus).
#[derive(Clone, Copy, Debug, PartialEq, Eq, Structural)]
pub enum DialogMode {
    /// No dialog shown.
    Closed,
    /// Confirming deletion of the selected conversation.
    ConfirmDelete,
    /// Export menu (save to file).
    ExportMenu { selected: usize },
    /// Yank menu (copy to clipboard).
    YankMenu { selected: usize },
    /// Help overlay showing keyboard shortcuts.
    Help,
}

/// The number of formats in the export and yank menus.
pub const EXPORT_OPTION_COUNT: usize = 4;

/// The label of an option of the export and yank menus.
pub open spec fn export_label(option: int) -> Seq<char> {
    if option == 0 {
        "Ledger (formatted)"@
    } else if option == 1 {
        "Plain text"@
    } else if option == 2 {
        "Markdown"@
    } else {
        "JSONL (raw)"@
    }
}

/// The label of an option of the export and yank menus.
pub fn export_option(option: usize) -> (r: &'static str)
    requires
        option < EXPORT_OPTION_COUNT,
    ensures
        r@ == export_label(option as int),
{
    if option == 0 {
        "Ledger (formatted)"
    } else if option == 1 {
        "Plain text"
    } else if option == 2 {
        "Markdown"
    } else {
        "JSONL (raw)"
    }
}

/// Layout of the conversation list.
#[derive(Clone, Copy, Debug, PartialEq, Eq, Structural)]
pub enum ListViewMode {
    /// Flat list, sorted by recency.
    Flat,
    /// Hierarchical dashboard grouped by project path.
    Grouped,
}

/// Which pane currently receives keystrokes (Grouped mode).
#[derive(Clone, Copy, Debug, PartialEq, Eq, Structural)]
pub enum PaneFocus {
    List,
    Preview,
}

/// Loading state for the dashboard.
#[derive(Clone, Copy, Debug, PartialEq, Eq, Structural)]
pub enum LoadingState {
    /// Still loading conversations.
    Loading { loaded: usize },
    /// All conversations loaded and ready.
    Ready,
}

} // verus!
