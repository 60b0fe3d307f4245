//! What the dashboard asks its surroundings for.

use crate::history::grouping::ProjectGroup;
use crate::history::{Conversation, LogEntry, ProviderKind, ToolName};
use crate::paths::path_id;
use crate::tui::key_laws::{is_shown_selected, law_selection_is_what_is_shown};
use crate::tui::keys::{
    export_label, DialogMode, Effect, KeyCode, ListViewMode, LoadingState,
};
use crate::tui::lines::{lines_view, match_lines, RenderedLine};
use crate::tui::model::AppView;
use crate::tui::requests::{
    copy_message, export_assistant, export_message, format_at, position_from, position_of,
    preview_label, provider_color, provider_dim_color, source_of, viewer_label, CopyKind, Dispatch,
    EnterStep, EntrySource, ExportFormat, ExportOutcome, LoaderEvent, LoaderStep, PreviewPlanView,
};
use crate::tui::rows::Row;
use crate::tui::view_state::{ToolDisplayMode, ViewSearchMode, ViewStateView};
use vstd::prelude::*;

verus! {

/// What a provider goes by in the viewer, in the preview pane and in exports; that of the first
/// provider is its tool's label throughout.
pub proof fn law_provider_names(tool: &ToolName)
    ensures
        viewer_label(ProviderKind::Claude, tool) == tool.label@,
        viewer_label(ProviderKind::Cursor, tool) == "Cursor IDE"@,
        viewer_label(ProviderKind::CursorAgent, tool) == "Cursor Agent"@,
        preview_label(ProviderKind::Claude, tool) == tool.label@,
        preview_label(ProviderKind::Cursor, tool) == "Cursor IDE"@,
        preview_label(ProviderKind::CursorAgent, tool) == "Cursor CLI"@,
        export_assistant(Some(ProviderKind::Claude), tool) == tool.label@,
        export_assistant(Some(ProviderKind::Cursor), tool) == "Cursor"@,
        export_assistant(Some(ProviderKind::CursorAgent), tool) == "Cursor Agent"@,
        export_assistant(None, tool) == tool.label@,
{
}

/// Providers have different colors, and the dim color of each is a darker one.
pub proof fn law_provider_colors(a: ProviderKind, b: ProviderKind)
    ensures
        provider_color(a) == (match a {
            ProviderKind::Claude => (218u8, 119u8, 86u8),
            ProviderKind::Cursor => (180u8, 130u8, 230u8),
            ProviderKind::CursorAgent => (94u8, 184u8, 255u8),
        }),
        provider_dim_color(a) == (match a {
            ProviderKind::Claude => (170u8, 93u8, 67u8),
            ProviderKind::Cursor => (140u8, 100u8, 180u8),
            ProviderKind::CursorAgent => (72u8, 140u8, 194u8),
        }),
        provider_color(a) == provider_color(b) <==> a == b,
        provider_dim_color(a) == provider_dim_color(b) <==> a == b,
        provider_dim_color(a).0 < provider_color(a).0,
        provider_dim_color(a).1 < provider_color(a).1,
        provider_dim_color(a).2 < provider_color(a).2,
{
}

proof fn lemma_position_from(convs: Seq<Conversation>, path: Seq<char>, from: nat)
    requires
        from <= convs.len() <= usize::MAX,
    ensures
        match position_from(convs, path, from) {
            Some(i) => from <= i < convs.len() && path_id(convs[i as int].path@) == path_id(path)
                && forall|j: int|
                from <= j < i ==> path_id((#[trigger] convs[j]).path@) != path_id(path),
            None => forall|j: int|
                from <= j < convs.len() ==> path_id((#[trigger] convs[j]).path@) != path_id(path),
        },
    decreases convs.len() - from,
{
    if from < convs.len() && path_id(convs[from as int].path@) != path_id(path) {
        lemma_position_from(convs, path, from + 1);
    }
}

/// A conversation is deleted and resumed by the provider of the first conversation that has its
/// path, where that provider is registered; a path that no conversation has is nobody's.
pub proof fn law_conversations_go_to_their_provider(
    s: AppView,
    path: Seq<char>,
    registered: Seq<ProviderKind>,
)
    requires
        s.conversations.len() <= usize::MAX,
    ensures
        match s.dispatch(path, registered) {
            Dispatch::Provider { conv_idx } => {
                &&& conv_idx < s.conversations.len()
                &&& path_id(s.conversations[conv_idx as int].path@) == path_id(path)
                &&& registered.contains(s.conversations[conv_idx as int].provider)
                &&& forall|j: int|
                    0 <= j < conv_idx ==> path_id((#[trigger] s.conversations[j]).path@)
                        != path_id(path)
            },
            Dispatch::NoProvider { kind } => {
                &&& !registered.contains(kind)
                &&& exists|i: int|
                    0 <= i < s.conversations.len() && (#[trigger] s.conversations[i]).provider
                        == kind && path_id(s.conversations[i].path@) == path_id(path)
            },
            Dispatch::Unknown => forall|j: int|
                0 <= j < s.conversations.len() ==> path_id((#[trigger] s.conversations[j]).path@)
                    != path_id(path),
        },
{
    lemma_position_from(s.conversations, path, 0);
    match position_of(s.conversations, path) {
        Some(i) => {
            assert(s.conversations[i as int].provider == s.conversations[i as int].provider);
        },
        None => {},
    }
}

/// What is opened is the conversation that is shown as selected: its own file, read by its own
/// provider where that is registered, in the label and colors of that provider and with the
/// dashboard's settings.
pub proof fn law_opening_reads_what_is_shown(
    s: AppView,
    content_width: nat,
    registered: Seq<ProviderKind>,
    i: usize,
)
    requires
        is_shown_selected(s, i),
    ensures
        ({
            let request = s.view_request(content_width, registered);
            let conv = s.conversations[i as int];
            &&& request is Some
            &&& request->0.path == conv.path@
            &&& registered.contains(conv.provider) ==> request->0.source == (
            EntrySource::Provider { conv_idx: i })
            &&& !registered.contains(conv.provider) ==> request->0.source == EntrySource::File
            &&& request->0.options.tool_display == s.tool_display
            &&& request->0.options.show_thinking == s.show_thinking
            &&& request->0.options.show_timing == s.show_timing
            &&& request->0.options.content_width == content_width
            &&& request->0.options.assistant_label == viewer_label(conv.provider, &s.tool)
            &&& request->0.options.assistant_color == provider_color(conv.provider)
            &&& request->0.options.assistant_dim_color == provider_dim_color(conv.provider)
        }),
{
    law_selection_is_what_is_shown(s, i, 0);
}

/// The viewer opens on the conversation that is shown as selected, at its top, with the lines and
/// the messages that were read for it and without a search; where it could not be read, the list
/// stays and tells why.
pub proof fn law_viewer_opens_on_what_is_shown(
    s: AppView,
    content_width: nat,
    opened: Result<(Vec<LogEntry>, Vec<RenderedLine>), String>,
    at: u64,
    i: usize,
)
    requires
        is_shown_selected(s, i),
    ensures
        ({
            let t = s.view_entered(content_width, opened, at);
            match opened {
                Ok((entries, lines)) => {
                    &&& t == (AppView { viewing: t.viewing, ..s })
                    &&& t.viewing is Some
                    &&& t.viewing->0.conversation_path == s.conversations[i as int].path@
                    &&& t.viewing->0.scroll_offset == 0
                    &&& t.viewing->0.rendered_lines == lines@
                    &&& t.viewing->0.total_lines == lines@.len()
                    &&& t.viewing->0.cached_entries == entries@
                    &&& t.viewing->0.search_mode == ViewSearchMode::Off
                    &&& t.viewing->0.search_query.len() == 0
                    &&& t.viewing->0.search_matches.len() == 0
                    &&& t.viewing->0.tool_display == s.tool_display
                    &&& t.viewing->0.show_thinking == s.show_thinking
                    &&& t.viewing->0.show_timing == s.show_timing
                    &&& t.viewing->0.content_width == content_width
                },
                Err(why) => t == (AppView {
                    status: Some(("Failed to open: "@ + why@, at)),
                    ..s
                }),
            }
        }),
{
    law_selection_is_what_is_shown(s, i, 0);
}

/// What is rendered again is the conversation that is being read, with the settings of the
/// viewer; it is read anew only where no messages are kept, by the provider of the conversation
/// with its path where that is registered.
pub proof fn law_rendering_again_is_of_what_is_read(
    s: AppView,
    v: ViewStateView,
    registered: Seq<ProviderKind>,
)
    requires
        s.viewing == Some(v),
        s.conversations.len() <= usize::MAX,
    ensures
        ({
            let request = s.re_render_request(registered);
            &&& request is Some
            &&& request->0.path == v.conversation_path
            &&& request->0.options.tool_display == v.tool_display
            &&& request->0.options.show_thinking == v.show_thinking
            &&& request->0.options.show_timing == v.show_timing
            &&& request->0.options.content_width == v.content_width
            &&& v.cached_entries.len() > 0 <==> request->0.source == EntrySource::Cached
            &&& request->0.source matches EntrySource::Provider { conv_idx } ==> {
                &&& conv_idx < s.conversations.len()
                &&& path_id(s.conversations[conv_idx as int].path@) == path_id(
                    v.conversation_path,
                )
                &&& registered.contains(s.conversations[conv_idx as int].provider)
                &&& request->0.options.assistant_label == viewer_label(
                    s.conversations[conv_idx as int].provider,
                    &s.tool,
                )
            }
        }),
{
    lemma_position_from(s.conversations, v.conversation_path, 0);
}

/// The viewer then shows the lines that were rendered, stays inside them, and carries an active
/// search over to them: its matches are the lines that hold the query. It keeps the messages
/// that were read, and all that it held where nothing came back.
pub proof fn law_rendered_lines_are_shown(
    s: AppView,
    v: ViewStateView,
    entries: Option<Vec<LogEntry>>,
    lines: Option<Vec<RenderedLine>>,
    viewport_height: nat,
)
    requires
        s.viewing == Some(v),
    ensures
        ({
            let t = s.re_rendered(entries, lines, viewport_height);
            let w = t.viewing->0;
            &&& t == (AppView { viewing: t.viewing, ..s })
            &&& t.viewing is Some
            &&& w.conversation_path == v.conversation_path
            &&& entries is Some ==> w.cached_entries == entries->0@
            &&& entries is None ==> w.cached_entries == v.cached_entries
            &&& lines is None && entries is None ==> t == s
            &&& lines is Some ==> {
                &&& w.rendered_lines == lines->0@
                &&& w.total_lines == lines->0@.len()
                &&& w.scroll_offset <= v.scroll_offset
                &&& v.scroll_offset + viewport_height <= lines->0@.len() ==> w.scroll_offset
                    == v.scroll_offset
                &&& lines->0@.len() >= viewport_height ==> w.scroll_offset + viewport_height
                    <= lines->0@.len()
                &&& lines->0@.len() < viewport_height ==> w.scroll_offset == 0
                &&& v.search_mode == ViewSearchMode::Active && v.search_query.len() > 0
                    ==> w.search_matches == match_lines(
                    lines_view(lines->0@),
                    crate::text::lowercase(v.search_query),
                )
                &&& w.search_mode == v.search_mode && w.search_query == v.search_query
            }
        }),
{
}

/// A viewer that is resized changes nothing but its width, and is rendered again exactly where
/// that is another one.
pub proof fn law_resizing(s: AppView, content_width: nat)
    ensures
        ({
            let t = s.resized(content_width);
            &&& s.viewing is None ==> t == s && !s.width_differs(content_width)
            &&& s.viewing matches Some(v) ==> {
                &&& t == (AppView { viewing: Some(ViewStateView { content_width, ..v }), ..s })
                &&& s.width_differs(content_width) <==> v.content_width != content_width
            }
        }),
{
}

/// What is exported is the conversation that is being read, in the format that the option of the
/// menu names, with tools where the viewer shows any and with thinking where it shows it.
pub proof fn law_export_is_of_what_is_read(
    s: AppView,
    v: ViewStateView,
    option: nat,
    registered: Seq<ProviderKind>,
)
    requires
        s.viewing == Some(v),
        s.conversations.len() <= usize::MAX,
    ensures
        ({
            let request = s.export_request(option, registered);
            &&& request is Some <==> option < 4
            &&& option < 4 ==> {
                &&& request->0.path == v.conversation_path
                &&& request->0.show_tools <==> v.tool_display != ToolDisplayMode::Hidden
                &&& request->0.show_thinking == v.show_thinking
                &&& option == 0 ==> request->0.format == ExportFormat::Ledger
                &&& option == 1 ==> request->0.format == ExportFormat::Plain
                &&& option == 2 ==> request->0.format == ExportFormat::Markdown
                &&& option == 3 ==> request->0.format == ExportFormat::Jsonl
                &&& request->0.source matches EntrySource::Provider { conv_idx } ==> {
                    &&& conv_idx < s.conversations.len()
                    &&& path_id(s.conversations[conv_idx as int].path@) == path_id(
                        v.conversation_path,
                    )
                    &&& registered.contains(s.conversations[conv_idx as int].provider)
                    &&& request->0.assistant_label == export_assistant(
                        Some(s.conversations[conv_idx as int].provider),
                        &s.tool,
                    )
                }
            }
        }),
        s.export_request(option, registered) matches Some(request) ==> request.source
            != EntrySource::Cached,
{
    lemma_position_from(s.conversations, v.conversation_path, 0);
}

/// The options of the export menu are called what they are.
pub proof fn law_menu_options_are_called_what_they_are()
    ensures
        format_at(0) == Some(ExportFormat::Ledger) && export_label(0) == "Ledger (formatted)"@,
        format_at(1) == Some(ExportFormat::Plain) && export_label(1) == "Plain text"@,
        format_at(2) == Some(ExportFormat::Markdown) && export_label(2) == "Markdown"@,
        format_at(3) == Some(ExportFormat::Jsonl) && export_label(3) == "JSONL (raw)"@,
        forall|option: nat| option >= 4 ==> #[trigger] format_at(option) is None,
{
}

/// The user is told how an export and a copy went: what failed, and why, or where it went.
pub proof fn law_outcomes_are_told(text: String, kind: CopyKind)
    ensures
        export_message(ExportOutcome::Copied) == "Copied to clipboard"@,
        export_message(ExportOutcome::ClipboardError(text)) == "Clipboard error: "@ + text@,
        export_message(ExportOutcome::Written(text)) == "Exported to "@ + text@,
        export_message(ExportOutcome::WriteError(text)) == "Failed to write: "@ + text@,
        export_message(ExportOutcome::ReadError(text)) == "Failed to read: "@ + text@,
        export_message(ExportOutcome::Told(text)) == text@,
        copy_message(kind, Err(text)) == "Clipboard error: "@ + text@,
        copy_message(CopyKind::Path, Ok(())) == "Path copied to clipboard"@,
        copy_message(CopyKind::SessionId, Ok(())) == "Session ID copied to clipboard"@,
{
}

/// Enter in the list opens the selected conversation, or expands or collapses the group whose
/// header is selected; any other key, and Enter where a dialog or the viewer is open or
/// conversations are loading, is left alone.
pub proof fn law_enter_opens_or_toggles(s: AppView, code: KeyCode)
    ensures
        ({
            let step = s.enter_step(code);
            let listing = code == KeyCode::Enter && s.viewing is None && s.dialog_mode
                == DialogMode::Closed && s.loading_state == LoadingState::Ready;
            let row = s.rows[s.selected_row->0 as int];
            let on_header = s.selected_row is Some && s.selected_row->0 < s.rows.len() && row
                is Header;
            &&& !listing ==> step == EnterStep::Pass
            &&& listing && s.view_mode == ListViewMode::Flat && s.selected is Some ==> step
                == EnterStep::OpenConversation
            &&& listing && s.view_mode == ListViewMode::Flat && s.selected is None ==> step
                == EnterStep::Pass
            &&& listing && s.view_mode == ListViewMode::Grouped && on_header ==> step
                == EnterStep::ToggleGroup
            &&& listing && s.view_mode == ListViewMode::Grouped && !on_header && s.selected_row
                is Some ==> step == EnterStep::OpenConversation
            &&& listing && s.view_mode == ListViewMode::Grouped && s.selected_row is None ==> step
                == EnterStep::Pass
        }),
{
}

/// What the loader sends: an error of one project is passed over, a fatal one ends the program,
/// silence draws the dashboard. Loading ends once, with the loader's last word or its
/// disappearance, and then a query that was typed meanwhile is searched for; a history without
/// conversations ends the program.
pub proof fn law_loader_events(s: AppView, event: LoaderEvent, groups: Seq<ProjectGroup>)
    ensures
        ({
            let (t, outcome) = s.after_loader_event(event, groups);
            let loading = s.loading_state is Loading;
            let ends = event is Done || event is Disconnected && loading;
            &&& outcome.finished <==> ends
            &&& event is Fatal ==> t == s && outcome.step == LoaderStep::Fatal
            &&& event is ProjectError ==> t == s && outcome.step == LoaderStep::Again
            &&& event is Idle ==> t == s && outcome.step == LoaderStep::Draw
            &&& event is Disconnected && !loading ==> t == s && outcome.step == LoaderStep::Draw
            &&& event is Batch ==> outcome.step == LoaderStep::Again
            &&& event matches LoaderEvent::Batch { conversations, facts } ==> t == s.appended(
                conversations@,
                facts@,
                groups,
            )
            &&& ends ==> t == s.loaded(groups)
            &&& ends && s.conversations.len() == 0 ==> outcome.step == LoaderStep::NoHistory
            &&& event is Done && s.conversations.len() > 0 ==> outcome.step == LoaderStep::Again
            &&& ends && event is Disconnected && s.conversations.len() > 0 ==> outcome.step
                == LoaderStep::Draw
            &&& outcome.effect == (if ends && s.query.len() > 0 {
                Effect::Search
            } else {
                Effect::Nothing
            })
        }),
{
}

/// The preview pane is shown beside the grouped list on screens of at least a hundred columns,
/// unless it is hidden, and takes half of them without its margins.
pub proof fn law_preview_pane_needs_room(s: AppView, frame_width: nat)
    ensures
        s.preview_width(frame_width) is Some <==> s.viewing is None && s.view_mode
            == ListViewMode::Grouped && s.preview_visible && frame_width >= 100,
        s.preview_width(frame_width) matches Some(width) ==> width + 4 == frame_width / 2,
{
}

/// The preview pane shows the selected row: the group of a header, or the conversation of any
/// other row, in the label and colors of its provider. What was built for that conversation, that
/// width and these settings is shown again without building it anew.
pub proof fn law_preview_is_of_the_selected_row(s: AppView, width: nat, row: Row)
    requires
        s.selected_row is Some,
        s.selected_row->0 < s.rows.len(),
        s.rows[s.selected_row->0 as int] == row,
    ensures
        match row {
            Row::Header { group_idx } => group_idx < s.groups.len() ==> s.preview_plan(width) == (
            PreviewPlanView::Group { group_idx }),
            Row::Conversation { conv_idx, .. } => conv_idx < s.conversations.len() ==> {
                let conv = s.conversations[conv_idx as int];
                let fits = s.preview matches Some((key, _)) && key.path == path_id(conv.path@)
                    && key.width == width && key.tool_display == s.tool_display
                    && key.show_thinking == s.show_thinking;
                match s.preview_plan(width) {
                    PreviewPlanView::Current => fits,
                    PreviewPlanView::Conversation { conv_idx: shown, options } => {
                        &&& !fits
                        &&& shown == conv_idx
                        &&& options.tool_display == s.tool_display
                        &&& options.show_thinking == s.show_thinking
                        &&& !options.show_timing
                        &&& options.content_width == width
                        &&& options.assistant_label == preview_label(conv.provider, &s.tool)
                        &&& options.assistant_color == provider_color(conv.provider)
                        &&& options.assistant_dim_color == provider_dim_color(conv.provider)
                    },
                    _ => false,
                }
            },
        },
{
}

/// What was built for the selected conversation is what the preview pane shows, and is not built
/// again for it.
pub proof fn law_built_previews_are_kept(s: AppView, width: nat, lines: Vec<RenderedLine>)
    requires
        s.preview_plan(width) is Conversation,
    ensures
        ({
            let t = s.preview_ensured(width, Some(lines));
            &&& t == (AppView { preview: t.preview, ..s })
            &&& t.preview_lines() == lines@
            &&& t.preview_plan(width) is Current
            &&& t.preview_ensured(width, None) == t
        }),
{
}

/// Where the messages of a conversation come from: its provider where that is registered, else
/// the file.
pub proof fn law_registered_providers_read(
    kind: ProviderKind,
    conv_idx: usize,
    registered: Seq<ProviderKind>,
)
    ensures
        registered.contains(kind) ==> source_of(kind, conv_idx, registered) == (
        EntrySource::Provider { conv_idx }),
        !registered.contains(kind) ==> source_of(kind, conv_idx, registered) == EntrySource::File,
{
}

/// What was built for a group is what the preview pane shows of it, and a pane without anything to
/// show is empty.
pub proof fn law_group_previews_are_shown(s: AppView, width: nat, lines: Vec<RenderedLine>)
    ensures
        s.preview_plan(width) is Group ==> s.preview_ensured(width, Some(lines)).preview_lines()
            == lines@,
        s.preview_plan(width) is Nothing ==> s.preview_ensured(
            width,
            Some(lines),
        ).preview_lines().len() == 0,
        s.selected_row is None ==> s.preview_plan(width) is Nothing,
        s.preview_plan(width) is Current ==> s.preview_ensured(width, Some(lines)) == s,
{
}

/// The name of an export file says that it is a conversation, tells the time and ends in the
/// ending of its format.
pub proof fn law_export_files_tell_their_time(stamp: Seq<char>, ext: Seq<char>)
    ensures
        ({
            let name = crate::tui::requests::export_name(stamp, ext);
            &&& ("conversation-"@ + stamp).is_prefix_of(name)
            &&& ("."@ + ext).is_suffix_of(name)
            &&& name.len() == "conversation-"@.len() + stamp.len() + 1 + ext.len()
        }),
{
    reveal_strlit(".");
    let name = crate::tui::requests::export_name(stamp, ext);
    let front = "conversation-"@ + stamp;
    let back = "."@ + ext;
    assert(name.subrange(0, front.len() as int) =~= front);
    assert(name.subrange(name.len() - back.len(), name.len() as int) =~= back);
}

} // verus!
