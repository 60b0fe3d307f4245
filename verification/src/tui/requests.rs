//! What the dashboard asks its surroundings for, and what they answer.

use crate::history::grouping::{ProjectFacts, ProjectGroup};
use crate::history::{Conversation, LogEntry, ProviderKind, ToolName};
use crate::paths::{path_id, same_path};
use crate::text::{concat, decimal};
use crate::time::{format_time, local_now, strftime, Timestamp, EXPORT_PATTERN};
use crate::tui::keys::{DialogMode, Effect, KeyCode, ListViewMode};
use crate::tui::lines::RenderedLine;
use crate::tui::model::{AppView, PreviewKeyView};
use crate::tui::rows::Row;
use crate::tui::view_state::{minus, ToolDisplayMode, ViewStateView};
use vstd::prelude::*;

verus! {

/// How a conversation is rendered.
#[derive(Debug)]
pub struct RenderOptions {
    pub tool_display: ToolDisplayMode,
    pub show_thinking: bool,
    pub show_timing: bool,
    pub content_width: usize,
    pub assistant_label: String,
    pub assistant_color: (u8, u8, u8),
    pub assistant_dim_color: (u8, u8, u8),
}

/// What `RenderOptions` say.
pub struct RenderOptionsView {
    pub tool_display: ToolDisplayMode,
    pub show_thinking: bool,
    pub show_timing: bool,
    pub content_width: nat,
    pub assistant_label: Seq<char>,
    pub assistant_color: (u8, u8, u8),
    pub assistant_dim_color: (u8, u8, u8),
}

impl View for RenderOptions {
    type V = RenderOptionsView;

    open spec fn view(&self) -> RenderOptionsView {
        RenderOptionsView {
            tool_display: self.tool_display,
            show_thinking: self.show_thinking,
            show_timing: self.show_timing,
            content_width: self.content_width as nat,
            assistant_label: self.assistant_label@,
            assistant_color: self.assistant_color,
            assistant_dim_color: self.assistant_dim_color,
        }
    }
}

/// The color of a provider.
pub open spec fn provider_color(kind: ProviderKind) -> (u8, u8, u8) {
    match kind {
        ProviderKind::Claude => (218, 119, 86),
        ProviderKind::Cursor => (180, 130, 230),
        ProviderKind::CursorAgent => (94, 184, 255),
    }
}

/// The dim color of a provider.
pub open spec fn provider_dim_color(kind: ProviderKind) -> (u8, u8, u8) {
    match kind {
        ProviderKind::Claude => (170, 93, 67),
        ProviderKind::Cursor => (140, 100, 180),
        ProviderKind::CursorAgent => (72, 140, 194),
    }
}

/// The name that a provider goes by in the viewer.
pub open spec fn viewer_label(kind: ProviderKind, tool: &ToolName) -> Seq<char> {
    match kind {
        ProviderKind::Claude => tool.label@,
        ProviderKind::Cursor => "Cursor IDE"@,
        ProviderKind::CursorAgent => "Cursor Agent"@,
    }
}

/// The name that a provider goes by in the preview pane.
pub open spec fn preview_label(kind: ProviderKind, tool: &ToolName) -> Seq<char> {
    match kind {
        ProviderKind::Claude => tool.label@,
        ProviderKind::Cursor => "Cursor IDE"@,
        ProviderKind::CursorAgent => "Cursor CLI"@,
    }
}

/// The name that a provider goes by in exports.
pub open spec fn export_assistant(kind: Option<ProviderKind>, tool: &ToolName) -> Seq<char> {
    match kind {
        Some(ProviderKind::Cursor) => "Cursor"@,
        Some(ProviderKind::CursorAgent) => "Cursor Agent"@,
        _ => tool.label@,
    }
}

/// Returns (label, color, dim_color) for a provider.
pub fn provider_theme(kind: ProviderKind, tool: &ToolName) -> (r: (
    String,
    (u8, u8, u8),
    (u8, u8, u8),
))
    ensures
        r.0@ == viewer_label(kind, tool),
        r.1 == provider_color(kind),
        r.2 == provider_dim_color(kind),
{
    match kind {
        ProviderKind::Claude => (tool.label.clone(), (218, 119, 86), (170, 93, 67)),
        ProviderKind::Cursor => ("Cursor IDE".to_owned(), (180, 130, 230), (140, 100, 180)),
        ProviderKind::CursorAgent => ("Cursor Agent".to_owned(), (94, 184, 255), (72, 140, 194)),
    }
}

/// The name that a provider goes by in the preview pane.
pub fn provider_label(kind: ProviderKind, tool: &ToolName) -> (r: &str)
    ensures
        r@ == preview_label(kind, tool),
{
    match kind {
        ProviderKind::Claude => tool.label.as_str(),
        ProviderKind::Cursor => "Cursor IDE",
        ProviderKind::CursorAgent => "Cursor CLI",
    }
}

/// The name that a provider goes by in exports.
pub fn export_assistant_label(kind: Option<ProviderKind>, tool: &ToolName) -> (r: String)
    ensures
        r@ == export_assistant(kind, tool),
{
    match kind {
        Some(ProviderKind::Cursor) => "Cursor".to_owned(),
        Some(ProviderKind::CursorAgent) => "Cursor Agent".to_owned(),
        _ => tool.label.clone(),
    }
}

/// Whether a provider is among the registered ones.
pub fn is_registered(registered: &[ProviderKind], kind: ProviderKind) -> (r: bool)
    ensures
        r == registered@.contains(kind),
{
    for i in 0..registered.len()
        invariant
            forall|k: int| 0 <= k < i ==> #[trigger] registered@[k] != kind,
    {
        if registered[i] == kind {
            return true;
        }
    }
    false
}

/// The first conversation, from `from` on, that a path belongs to.
pub open spec fn position_from(convs: Seq<Conversation>, path: Seq<char>, from: nat) -> Option<
    usize,
>
    decreases convs.len() - from,
{
    if from >= convs.len() {
        None
    } else if path_id(convs[from as int].path@) == path_id(path) {
        Some(from as usize)
    } else {
        position_from(convs, path, from + 1)
    }
}

/// The first conversation that a path belongs to.
pub open spec fn position_of(convs: Seq<Conversation>, path: Seq<char>) -> Option<usize> {
    position_from(convs, path, 0)
}

/// The first conversation that a path belongs to.
pub fn find_conversation(convs: &[Conversation], path: &str) -> (r: Option<usize>)
    ensures
        r == position_of(convs@, path@),
        r matches Some(i) ==> i < convs@.len(),
{
    for i in 0..convs.len()
        invariant
            position_of(convs@, path@) == position_from(convs@, path@, i as nat),
    {
        if same_path(convs[i].path.as_str(), path) {
            return Some(i);
        }
    }
    None
}

/// Where the messages of a conversation come from.
#[derive(Clone, Copy, Debug, PartialEq, Eq, Structural)]
pub enum EntrySource {
    /// The messages that were read before.
    Cached,
    /// The provider of the conversation at an index of the list.
    Provider { conv_idx: usize },
    /// The conversation file itself.
    File,
}

/// Where the messages of the conversation at `conv_idx` come from.
pub open spec fn source_of(kind: ProviderKind, conv_idx: usize, registered: Seq<ProviderKind>)
    -> EntrySource {
    if registered.contains(kind) {
        EntrySource::Provider { conv_idx }
    } else {
        EntrySource::File
    }
}

/// Where the messages of the conversation at `conv_idx` come from.
pub fn choose_source(kind: ProviderKind, conv_idx: usize, registered: &[ProviderKind]) -> (r:
    EntrySource)
    ensures
        r == source_of(kind, conv_idx, registered@),
{
    if is_registered(registered, kind) {
        EntrySource::Provider { conv_idx }
    } else {
        EntrySource::File
    }
}

/// A conversation to be read and rendered.
#[derive(Debug)]
pub struct RenderRequest {
    pub path: String,
    pub options: RenderOptions,
    pub source: EntrySource,
}

/// What a `RenderRequest` says.
pub struct RenderRequestView {
    pub path: Seq<char>,
    pub options: RenderOptionsView,
    pub source: EntrySource,
}

impl View for RenderRequest {
    type V = RenderRequestView;

    open spec fn view(&self) -> RenderRequestView {
        RenderRequestView { path: self.path@, options: self.options@, source: self.source }
    }
}

/// What the preview pane needs.
#[derive(Debug)]
pub enum PreviewPlan {
    /// There is nothing to show.
    Nothing,
    /// The lines at hand are those to show.
    Current,
    /// The preview of a group.
    Group { group_idx: usize },
    /// The preview of a conversation.
    Conversation { conv_idx: usize, options: RenderOptions },
}

/// What a `PreviewPlan` says.
pub enum PreviewPlanView {
    Nothing,
    Current,
    Group { group_idx: usize },
    Conversation { conv_idx: usize, options: RenderOptionsView },
}

impl View for PreviewPlan {
    type V = PreviewPlanView;

    open spec fn view(&self) -> PreviewPlanView {
        match self {
            PreviewPlan::Nothing => PreviewPlanView::Nothing,
            PreviewPlan::Current => PreviewPlanView::Current,
            PreviewPlan::Group { group_idx } => PreviewPlanView::Group { group_idx: *group_idx },
            PreviewPlan::Conversation { conv_idx, options } => PreviewPlanView::Conversation {
                conv_idx: *conv_idx,
                options: options@,
            },
        }
    }
}

/// A format that conversations are exported in.
#[derive(Clone, Copy, Debug, PartialEq, Eq, Structural)]
pub enum ExportFormat {
    Ledger,
    Plain,
    Markdown,
    Jsonl,
}

/// The format that an option of the export menu stands for.
pub open spec fn format_at(option: nat) -> Option<ExportFormat> {
    if option == 0 {
        Some(ExportFormat::Ledger)
    } else if option == 1 {
        Some(ExportFormat::Plain)
    } else if option == 2 {
        Some(ExportFormat::Markdown)
    } else if option == 3 {
        Some(ExportFormat::Jsonl)
    } else {
        None
    }
}

impl ExportFormat {
    pub fn from_index(option: usize) -> (r: Option<ExportFormat>)
        ensures
            r == format_at(option as nat),
    {
        match option {
            0 => Some(ExportFormat::Ledger),
            1 => Some(ExportFormat::Plain),
            2 => Some(ExportFormat::Markdown),
            3 => Some(ExportFormat::Jsonl),
            _ => None,
        }
    }
}

/// A conversation to be exported.
#[derive(Debug)]
pub struct ExportRequest {
    pub path: String,
    pub format: ExportFormat,
    pub show_tools: bool,
    pub show_thinking: bool,
    pub assistant_label: String,
    pub source: EntrySource,
}

/// What an `ExportRequest` says.
pub struct ExportRequestView {
    pub path: Seq<char>,
    pub format: ExportFormat,
    pub show_tools: bool,
    pub show_thinking: bool,
    pub assistant_label: Seq<char>,
    pub source: EntrySource,
}

impl View for ExportRequest {
    type V = ExportRequestView;

    open spec fn view(&self) -> ExportRequestView {
        ExportRequestView {
            path: self.path@,
            format: self.format,
            show_tools: self.show_tools,
            show_thinking: self.show_thinking,
            assistant_label: self.assistant_label@,
            source: self.source,
        }
    }
}

/// How an export went.
#[derive(Debug)]
pub enum ExportOutcome {
    Copied,
    ClipboardError(String),
    /// Written to the file of that name.
    Written(String),
    WriteError(String),
    ReadError(String),
    /// What an export straight from the conversation file tells.
    Told(String),
}

/// What the user is told of an export.
pub open spec fn export_message(outcome: ExportOutcome) -> Seq<char> {
    match outcome {
        ExportOutcome::Copied => "Copied to clipboard"@,
        ExportOutcome::ClipboardError(e) => "Clipboard error: "@ + e@,
        ExportOutcome::Written(name) => "Exported to "@ + name@,
        ExportOutcome::WriteError(e) => "Failed to write: "@ + e@,
        ExportOutcome::ReadError(e) => "Failed to read: "@ + e@,
        ExportOutcome::Told(message) => message@,
    }
}

impl ExportOutcome {
    /// What the user is told of an export.
    pub fn message(&self) -> (r: String)
        ensures
            r@ == export_message(*self),
    {
        match self {
            ExportOutcome::Copied => "Copied to clipboard".to_owned(),
            ExportOutcome::ClipboardError(e) => concat("Clipboard error: ", e.as_str()),
            ExportOutcome::Written(name) => concat("Exported to ", name.as_str()),
            ExportOutcome::WriteError(e) => concat("Failed to write: ", e.as_str()),
            ExportOutcome::ReadError(e) => concat("Failed to read: ", e.as_str()),
            ExportOutcome::Told(message) => message.clone(),
        }
    }
}

/// The name of an export file, given the time as text.
pub open spec fn export_name(stamp: Seq<char>, ext: Seq<char>) -> Seq<char> {
    "conversation-"@ + stamp + "."@ + ext
}

/// The name of an export file, given the time as text.
pub fn export_filename_from(stamp: &str, ext: &str) -> (r: String)
    ensures
        r@ == export_name(stamp@, ext@),
{
    let mut name: String = concat("conversation-", stamp);
    name.append(".");
    name.append(ext);
    name
}

/// Whether `name` is the name of an export file that is written at a given time.
pub open spec fn is_export_name(now: Timestamp, ext: Seq<char>, name: Seq<char>) -> bool {
    name == export_name(
        strftime(now.secs as int, now.nanos as int, now.offset as int, EXPORT_PATTERN@),
        ext,
    )
}

/// The name of the file that an export is written to now.
pub fn export_filename(ext: &str) -> (r: String)
    ensures
        exists|now: Timestamp|
            now.wf() && now.secs >= 0 && #[trigger] is_export_name(now, ext@, r@),
{
    let now: Timestamp = local_now();
    let name: String = export_filename_at(now, ext);
    assert(is_export_name(now, ext@, name@));
    name
}

/// The name of the file that an export is written to at a given time.
pub fn export_filename_at(now: Timestamp, ext: &str) -> (r: String)
    requires
        now.wf(),
    ensures
        is_export_name(now, ext@, r@),
{
    let stamp: String = format_time(now, EXPORT_PATTERN);
    export_filename_from(stamp.as_str(), ext)
}

/// What was copied to the clipboard.
#[derive(Clone, Copy, Debug, PartialEq, Eq, Structural)]
pub enum CopyKind {
    Path,
    SessionId,
}

/// What the user is told of a copy to the clipboard.
pub open spec fn copy_message(kind: CopyKind, result: Result<(), String>) -> Seq<char> {
    match result {
        Ok(()) => match kind {
            CopyKind::Path => "Path copied to clipboard"@,
            CopyKind::SessionId => "Session ID copied to clipboard"@,
        },
        Err(e) => "Clipboard error: "@ + e@,
    }
}

/// What the user is told of a copy to the clipboard.
pub fn copy_result_message(kind: CopyKind, result: &Result<(), String>) -> (r: String)
    ensures
        r@ == copy_message(kind, *result),
{
    match result {
        Ok(()) => match kind {
            CopyKind::Path => "Path copied to clipboard".to_owned(),
            CopyKind::SessionId => "Session ID copied to clipboard".to_owned(),
        },
        Err(e) => concat("Clipboard error: ", e.as_str()),
    }
}

/// How the selected conversation is deleted from disk or resumed.
#[derive(Clone, Copy, Debug, PartialEq, Eq, Structural)]
pub enum Dispatch {
    /// Through the provider of the conversation at an index of the list.
    Provider { conv_idx: usize },
    /// The conversation is known, but no provider of its kind is registered.
    NoProvider { kind: ProviderKind },
    /// No conversation has that path.
    Unknown,
}

/// What Enter does in the list.
#[derive(Clone, Copy, Debug, PartialEq, Eq, Structural)]
pub enum EnterStep {
    /// Expand or collapse the selected group.
    ToggleGroup,
    /// Open the selected conversation.
    OpenConversation,
    /// Leave the key to `handle_key`.
    Pass,
}

/// Name column width for ledger-style display.
pub const NAME_WIDTH: usize = 9;

/// What the viewer keeps of the messages that were read to render it again: all of them where a
/// provider read them, and none where they came from the bare file.
pub fn kept_entries(source: EntrySource, entries: Vec<LogEntry>) -> (r: Option<Vec<LogEntry>>)
    ensures
        r == (match source {
            EntrySource::Provider { .. } => Some(entries),
            _ => None,
        }),
{
    match source {
        EntrySource::Provider { .. } => Some(entries),
        _ => None,
    }
}

/// The path that names the project of a single file: the working directory of its conversation,
/// else the file.
pub fn single_file_project(cwd: &Option<String>, path: &str) -> (r: String)
    ensures
        r@ == (match *cwd {
            Some(dir) => dir@,
            None => path@,
        }),
{
    match cwd {
        Some(dir) => dir.clone(),
        None => path.to_owned(),
    }
}

/// The narrowest terminal that the preview pane is shown on.
pub const PREVIEW_MIN_WIDTH: usize = 100;

/// The parts of the screen that content is laid out in.
#[derive(Clone, Copy, Debug, PartialEq, Eq, Structural)]
pub struct FrameLayout {
    pub viewport_height: usize,
    pub content_width: usize,
}

/// The layout of a screen of the given size: three lines go to header and status, and the name
/// column and its margin come off the width.
pub fn frame_layout(width: u16, height: u16) -> (r: FrameLayout)
    ensures
        r.viewport_height == (if height >= 3 {
            height - 3
        } else {
            0
        }),
        r.content_width == (if width >= NAME_WIDTH + 3 {
            width - (NAME_WIDTH + 3)
        } else {
            0
        }),
{
    let viewport_height: usize = if height >= 3 {
        height as usize - 3
    } else {
        0
    };
    let content_width: usize = if width as usize >= NAME_WIDTH + 3 {
        width as usize - (NAME_WIDTH + 3)
    } else {
        0
    };
    FrameLayout { viewport_height, content_width }
}

/// What came from the loader.
#[derive(Debug)]
pub enum LoaderEvent {
    /// Loading failed.
    Fatal,
    /// One project could not be read.
    ProjectError,
    /// More conversations.
    Batch { conversations: Vec<Conversation>, facts: Vec<ProjectFacts> },
    /// Everything is loaded.
    Done,
    /// Nothing, for the time being.
    Idle,
    /// The loader is gone.
    Disconnected,
}

/// What follows what came from the loader.
#[derive(Clone, Copy, Debug, PartialEq, Eq, Structural)]
pub enum LoaderStep {
    /// Ask the loader again.
    Again,
    /// Draw the dashboard.
    Draw,
    /// End with the loader's error.
    Fatal,
    /// End because there is no history in the selected scope.
    NoHistory,
}

/// The answer to what came from the loader. Where loading finished, the search data is to be
/// set, and `effect` tells whether a query is to be searched for.
#[derive(Clone, Copy, Debug, PartialEq, Eq, Structural)]
pub struct LoaderOutcome {
    pub step: LoaderStep,
    pub finished: bool,
    pub effect: Effect,
}

/// How the text of a group's preview key starts.
pub open spec fn group_key_text(group_idx: usize) -> Seq<char> {
    "__group__"@ + decimal(group_idx as nat)
}

impl AppView {
    /// How the conversation of a provider is rendered.
    pub open spec fn options_for(
        tool_display: ToolDisplayMode,
        show_thinking: bool,
        show_timing: bool,
        content_width: nat,
        label: Seq<char>,
        kind: ProviderKind,
    ) -> RenderOptionsView {
        RenderOptionsView {
            tool_display,
            show_thinking,
            show_timing,
            content_width,
            assistant_label: label,
            assistant_color: provider_color(kind),
            assistant_dim_color: provider_dim_color(kind),
        }
    }

    /// The end of loading, and the answer to it.
    pub open spec fn loading_ended(self, next: LoaderStep, groups: Seq<ProjectGroup>) -> (
        AppView,
        LoaderOutcome,
    ) {
        (
            self.loaded(groups),
            LoaderOutcome {
                step: if self.conversations.len() == 0 {
                    LoaderStep::NoHistory
                } else {
                    next
                },
                finished: true,
                effect: if self.query.len() == 0 {
                    Effect::Nothing
                } else {
                    Effect::Search
                },
            },
        )
    }

    /// The dashboard after something came from the loader, and its answer. `groups` are the
    /// groups that are shown afterwards.
    pub open spec fn after_loader_event(self, event: LoaderEvent, groups: Seq<ProjectGroup>) -> (
        AppView,
        LoaderOutcome,
    ) {
        let same = |step: LoaderStep|
            LoaderOutcome { step, finished: false, effect: Effect::Nothing };
        match event {
            LoaderEvent::Fatal => (self, same(LoaderStep::Fatal)),
            LoaderEvent::ProjectError => (self, same(LoaderStep::Again)),
            LoaderEvent::Batch { conversations, facts } => (
                self.appended(conversations@, facts@, groups),
                same(LoaderStep::Again),
            ),
            LoaderEvent::Done => self.loading_ended(LoaderStep::Again, groups),
            LoaderEvent::Idle => (self, same(LoaderStep::Draw)),
            LoaderEvent::Disconnected => if self.is_loading() {
                self.loading_ended(LoaderStep::Draw, groups)
            } else {
                (self, same(LoaderStep::Draw))
            },
        }
    }

    /// What is to be rendered so that the selected conversation can be opened.
    pub open spec fn view_request(self, content_width: nat, registered: Seq<ProviderKind>)
        -> Option<RenderRequestView> {
        match self.selected_conversation() {
            Some(i) => {
                let conv = self.conversations[i as int];
                Some(
                    RenderRequestView {
                        path: conv.path@,
                        options: AppView::options_for(
                            self.tool_display,
                            self.show_thinking,
                            self.show_timing,
                            content_width,
                            viewer_label(conv.provider, &self.tool),
                            conv.provider,
                        ),
                        source: source_of(conv.provider, i, registered),
                    },
                )
            },
            None => None,
        }
    }

    /// The selected conversation opened, or its failure told.
    pub open spec fn view_entered(
        self,
        content_width: nat,
        opened: Result<(Vec<LogEntry>, Vec<RenderedLine>), String>,
        at: u64,
    ) -> AppView {
        match self.selected_path() {
            Some(path) => match opened {
                Ok((entries, lines)) => self.reading(
                    ViewStateView::opened(
                        path,
                        entries@,
                        lines@,
                        self.tool_display,
                        self.show_thinking,
                        self.show_timing,
                        content_width,
                    ),
                ),
                Err(e) => self.telling("Failed to open: "@ + e@, at),
            },
            None => self,
        }
    }

    /// The provider of the conversation being read, where it is in the list.
    pub open spec fn reading_kind(self, path: Seq<char>) -> Option<ProviderKind> {
        match position_of(self.conversations, path) {
            Some(i) => Some(self.conversations[i as int].provider),
            None => None,
        }
    }

    /// Where the messages of the conversation at `path` come from.
    pub open spec fn reading_source(self, path: Seq<char>, registered: Seq<ProviderKind>)
        -> EntrySource {
        match position_of(self.conversations, path) {
            Some(i) => source_of(self.conversations[i as int].provider, i, registered),
            None => EntrySource::File,
        }
    }

    /// What is to be rendered so that the viewer shows its current settings.
    pub open spec fn re_render_request(self, registered: Seq<ProviderKind>) -> Option<
        RenderRequestView,
    > {
        match self.viewing {
            Some(v) => {
                let kind = match self.reading_kind(v.conversation_path) {
                    Some(k) => k,
                    None => ProviderKind::Claude,
                };
                Some(
                    RenderRequestView {
                        path: v.conversation_path,
                        options: AppView::options_for(
                            v.tool_display,
                            v.show_thinking,
                            v.show_timing,
                            v.content_width,
                            viewer_label(kind, &self.tool),
                            kind,
                        ),
                        source: if v.cached_entries.len() > 0 {
                            EntrySource::Cached
                        } else {
                            self.reading_source(v.conversation_path, registered)
                        },
                    },
                )
            },
            None => None,
        }
    }

    /// The viewer showing the lines that were rendered for it, and keeping the messages that
    /// were read for them.
    pub open spec fn re_rendered(
        self,
        entries: Option<Vec<LogEntry>>,
        lines: Option<Vec<RenderedLine>>,
        viewport_height: nat,
    ) -> AppView {
        match self.viewing {
            Some(v) => {
                let kept = match entries {
                    Some(e) => v.with_entries(e@),
                    None => v,
                };
                match lines {
                    Some(l) => self.reading(kept.showing(l@, viewport_height)),
                    None => self.reading(kept),
                }
            },
            None => self,
        }
    }

    /// The viewer with another width.
    pub open spec fn resized(self, content_width: nat) -> AppView {
        match self.viewing {
            Some(v) => self.reading(ViewStateView { content_width, ..v }),
            None => self,
        }
    }

    /// Whether the viewer has to be rendered again for another width.
    pub open spec fn width_differs(self, content_width: nat) -> bool {
        self.viewing matches Some(v) && v.content_width != content_width
    }

    /// What is to be exported for an option of the export menu.
    pub open spec fn export_request(self, option: nat, registered: Seq<ProviderKind>) -> Option<
        ExportRequestView,
    > {
        match (self.viewing, format_at(option)) {
            (Some(v), Some(format)) => Some(
                ExportRequestView {
                    path: v.conversation_path,
                    format,
                    show_tools: v.tool_display != ToolDisplayMode::Hidden,
                    show_thinking: v.show_thinking,
                    assistant_label: export_assistant(
                        self.reading_kind(v.conversation_path),
                        &self.tool,
                    ),
                    source: self.reading_source(v.conversation_path, registered),
                },
            ),
            _ => None,
        }
    }

    /// Who deletes or resumes the conversation at `path`.
    pub open spec fn dispatch(self, path: Seq<char>, registered: Seq<ProviderKind>) -> Dispatch {
        match position_of(self.conversations, path) {
            Some(i) => if registered.contains(self.conversations[i as int].provider) {
                Dispatch::Provider { conv_idx: i }
            } else {
                Dispatch::NoProvider { kind: self.conversations[i as int].provider }
            },
            None => Dispatch::Unknown,
        }
    }

    /// The dashboard after the selected conversation was to be deleted: it leaves the list, and
    /// the list comes back, where that succeeded.
    pub open spec fn deletion_finished(self, deleted: bool, groups: Seq<ProjectGroup>) -> AppView {
        if deleted {
            self.selected_removed(groups).back_to_list()
        } else {
            self
        }
    }

    /// Whether the selected row is the header of a group.
    pub open spec fn header_selected(self) -> bool {
        self.selected_row matches Some(s) && s < self.rows.len() && self.rows[s as int] is Header
    }

    /// What a key does in the list before `handle_key` sees it: Enter opens the selected
    /// conversation, or expands or collapses the selected group.
    pub open spec fn enter_step(self, code: KeyCode) -> EnterStep {
        if self.viewing is None && self.dialog_mode == DialogMode::Closed && code == KeyCode::Enter
            && !self.is_loading() {
            if self.view_mode == ListViewMode::Grouped {
                if self.header_selected() {
                    EnterStep::ToggleGroup
                } else if self.selected_row is Some {
                    EnterStep::OpenConversation
                } else {
                    EnterStep::Pass
                }
            } else if self.selected is Some {
                EnterStep::OpenConversation
            } else {
                EnterStep::Pass
            }
        } else {
            EnterStep::Pass
        }
    }

    /// The width that the preview pane is rendered with, where it is shown: half of the
    /// screen without its margins, on a wide enough screen.
    pub open spec fn preview_width(self, frame_width: nat) -> Option<nat> {
        if self.viewing is None && self.view_mode == ListViewMode::Grouped && self.preview_visible
            && frame_width >= PREVIEW_MIN_WIDTH {
            Some(minus(frame_width / 2, 4))
        } else {
            None
        }
    }

    /// What the preview pane shows of a path.
    pub open spec fn preview_key_for(self, path: Seq<char>, width: nat) -> PreviewKeyView {
        PreviewKeyView {
            path: path_id(path),
            width,
            tool_display: self.tool_display,
            show_thinking: self.show_thinking,
        }
    }

    /// The selected row.
    pub open spec fn row_at_selection(self) -> Option<Row> {
        match self.selected_row {
            Some(s) => if s < self.rows.len() {
                Some(self.rows[s as int])
            } else {
                None
            },
            None => None,
        }
    }

    /// Whether the preview lines at hand were built for that key.
    pub open spec fn preview_is_current(self, key: PreviewKeyView) -> bool {
        self.preview matches Some((k, _)) && k == key
    }

    /// What the preview pane needs to show the selected row.
    pub open spec fn preview_plan(self, width: nat) -> PreviewPlanView {
        match self.row_at_selection() {
            None => PreviewPlanView::Nothing,
            Some(Row::Header { group_idx }) => if group_idx < self.groups.len() {
                PreviewPlanView::Group { group_idx }
            } else {
                PreviewPlanView::Nothing
            },
            Some(Row::Conversation { conv_idx, .. }) => if conv_idx < self.conversations.len() {
                let conv = self.conversations[conv_idx as int];
                if self.preview_is_current(self.preview_key_for(conv.path@, width)) {
                    PreviewPlanView::Current
                } else {
                    PreviewPlanView::Conversation {
                        conv_idx,
                        options: AppView::options_for(
                            self.tool_display,
                            self.show_thinking,
                            false,
                            width,
                            preview_label(conv.provider, &self.tool),
                            conv.provider,
                        ),
                    }
                }
            } else {
                PreviewPlanView::Nothing
            },
        }
    }

    /// The preview pane with the lines that were built for the selected row.
    pub open spec fn preview_ensured(self, width: nat, lines: Option<Vec<RenderedLine>>)
        -> AppView {
        let preview = match self.preview_plan(width) {
            PreviewPlanView::Nothing => None,
            PreviewPlanView::Current => self.preview,
            PreviewPlanView::Group { group_idx } => match lines {
                Some(l) => Some((self.preview_key_for(group_key_text(group_idx), width), l@)),
                None => None,
            },
            PreviewPlanView::Conversation { conv_idx, .. } => match lines {
                Some(l) => Some(
                    (
                        self.preview_key_for(self.conversations[conv_idx as int].path@, width),
                        l@,
                    ),
                ),
                None => None,
            },
        };
        AppView { preview, ..self }
    }
}

} // verus!
