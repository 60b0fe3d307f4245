//! The dashboard.

use crate::history::grouping::{
    group_by_project_path, is_group, is_grouping, first_of, ProjectFacts, ProjectGroup,
};
use crate::history::recency::{lemma_rearranged_wf, newest_first_order, number_conversations};
use crate::history::{all_wf, Conversation, LogEntry, ProviderKind, ToolName};
use crate::order::rearrange;
use crate::paths::{
    file_stem, opt_text, path_id, same_path, spec_file_stem, PathId, PathSet,
};
use crate::text::{
    chars_of, concat, decimal_text, split_whitespace, starts_with, string_of, sub_chars, texts,
    words,
};
use crate::tui::key_model::{
    law_keys_keep_the_invariant, lemma_regrouped_keeps_wf, lemma_rows_rebuilt,
};
use crate::tui::keys::{
    asks, quiet, Action, DialogMode, Effect, KeyCode, KeyModifiers, KeyOutcome, ListViewMode,
    LoadingState, PaneFocus, EXPORT_OPTION_COUNT,
};
use crate::tui::lines::RenderedLine;
use crate::tui::model::{
    admitted, first_indices, first_item, group_paths, groups_fit, index_without, indices_without,
    lemma_distinct_len, list_fits, nth_header, present_among, searchable_without, skip_separators,
    skip_word, word_start, AppView, PreviewKeyView, SearchableConversation,
};
use crate::tui::requests::{
    choose_source, copy_message, copy_result_message, export_assistant_label, export_message,
    find_conversation, is_registered, provider_label, provider_theme, CopyKind, Dispatch, EnterStep,
    EntrySource, LoaderEvent, LoaderOutcome, LoaderStep, ExportFormat, ExportOutcome, ExportRequest,
    ExportRequestView, PreviewPlan, RenderOptions, RenderRequest, RenderRequestView,
    PREVIEW_MIN_WIDTH,
};
use crate::tui::rows::{build_rows, is_open, group_id, row_fits, Row};
use crate::tui::view_state::{
    difference, law_view_steps_keep_the_invariant, sum_within, ToolDisplayMode, ViewSearchMode,
    ViewState,
};
use vstd::prelude::*;

verus! {

/// Main application mode.
#[derive(Debug)]
pub enum AppMode {
    /// List mode - browsing conversations.
    List,
    /// View mode - reading a conversation.
    View(ViewState),
}

/// Cache key for the preview render: invalidates when toggles change.
#[derive(Debug)]
struct PreviewKey {
    path: String,
    width: usize,
    tool_display: ToolDisplayMode,
    show_thinking: bool,
}

impl View for PreviewKey {
    type V = PreviewKeyView;

    closed spec fn view(&self) -> PreviewKeyView {
        PreviewKeyView {
            path: path_id(self.path@),
            width: self.width as nat,
            tool_display: self.tool_display,
            show_thinking: self.show_thinking,
        }
    }
}

/// App state.
#[derive(Debug)]
pub struct App {
    /// What the tool of the first provider is called.
    tool: ToolName,
    /// All loaded conversations.
    conversations: Vec<Conversation>,
    /// What the file system says of the project of each conversation.
    facts: Vec<ProjectFacts>,
    /// Precomputed search data.
    searchable: Vec<SearchableConversation>,
    /// Indices into conversations, sorted by current score.
    filtered: Vec<usize>,
    /// Currently selected index into filtered (None if no results).
    selected: Option<usize>,
    /// Current search query.
    query: String,
    /// Parsed and normalized query words (cached for render performance).
    query_words: Vec<String>,
    /// Cursor position in query (character index, not byte).
    cursor_pos: usize,
    /// Whether to use relative time display.
    use_relative_time: bool,
    /// Loading state.
    loading_state: LoadingState,
    /// Current dialog overlay (confirm, menu).
    dialog_mode: DialogMode,
    /// Main app mode (list or view).
    app_mode: AppMode,
    /// Status message with the time it was set at, for auto-clear.
    status_message: Option<(String, u64)>,
    /// Persistent view setting: tool display mode.
    tool_display: ToolDisplayMode,
    /// Persistent view setting: whether to show thinking blocks.
    show_thinking: bool,
    /// Persistent view setting: whether to show timing information.
    show_timing: bool,
    /// Whether the app is running in single file mode (direct input, no list).
    single_file_mode: bool,
    /// Previous search query for incremental filtering.
    previous_query: String,
    /// Whether to show conversations whose project directory no longer exists.
    show_deleted_projects: bool,
    /// Layout of the conversation list.
    view_mode: ListViewMode,
    /// Project groups derived from conversations (Grouped mode only).
    groups: Vec<ProjectGroup>,
    /// Canonical paths of currently expanded groups.
    expanded_groups: PathSet,
    /// Flattened, expansion-aware view of `groups` for rendering and selection.
    rows: Vec<Row>,
    /// Selected index into `rows` (Grouped mode). None when no rows.
    selected_row: Option<usize>,
    /// Whether the right preview pane is shown (Grouped mode).
    preview_visible: bool,
    /// Which pane currently has focus.
    pane_focus: PaneFocus,
    /// Vertical scroll offset for the preview pane.
    preview_scroll: usize,
    /// Last viewport height used to render the preview pane, so that scroll handlers can clamp
    /// without needing the layout.
    preview_viewport_height: usize,
    /// Cached rendered preview lines and their key (path/width/toggles).
    preview_cache: Option<(PreviewKey, Vec<RenderedLine>)>,
}

impl View for App {
    type V = AppView;

    closed spec fn view(&self) -> AppView {
        AppView {
            tool: self.tool,
            conversations: self.conversations@,
            facts: self.facts@,
            searchable: self.searchable@,
            filtered: self.filtered@,
            selected: self.selected,
            query: self.query@,
            query_words: texts(self.query_words@),
            cursor_pos: self.cursor_pos as nat,
            use_relative_time: self.use_relative_time,
            loading_state: self.loading_state,
            dialog_mode: self.dialog_mode,
            viewing: match self.app_mode {
                AppMode::View(v) => Some(v@),
                AppMode::List => None,
            },
            status: match self.status_message {
                Some((message, at)) => Some((message@, at)),
                None => None,
            },
            tool_display: self.tool_display,
            show_thinking: self.show_thinking,
            show_timing: self.show_timing,
            single_file_mode: self.single_file_mode,
            previous_query: self.previous_query@,
            show_deleted_projects: self.show_deleted_projects,
            view_mode: self.view_mode,
            groups: self.groups@,
            expanded: self.expanded_groups@,
            rows: self.rows@,
            selected_row: self.selected_row,
            preview_visible: self.preview_visible,
            pane_focus: self.pane_focus,
            preview_scroll: self.preview_scroll as nat,
            preview_viewport_height: self.preview_viewport_height as nat,
            preview: match self.preview_cache {
                Some((key, lines)) => Some((key@, lines@)),
                None => None,
            },
        }
    }
}

/// What an `App` holds is short enough for a machine, as it is on one.
proof fn lemma_fits_machine(app: &App)
    ensures
        app@.fits_machine(),
{
    assert(app.conversations@.len() == app.conversations.len());
    assert(app.filtered@.len() == app.filtered.len());
    assert(app.groups@.len() == app.groups.len());
    assert(app.rows@.len() == app.rows.len());
}

/// The numbers below `n`, in order.
fn indices_below(n: usize) -> (r: Vec<usize>)
    ensures
        r@ == first_indices(n as nat),
{
    let mut out: Vec<usize> = Vec::new();
    for i in 0..n
        invariant
            out@ == first_indices(i as nat),
    {
        out.push(i);
        assert(out@ =~= first_indices((i + 1) as nat));
    }
    out
}

/// The first of `len` items.
fn first_of_list(len: usize) -> (r: Option<usize>)
    ensures
        r == first_item(len as nat),
{
    if len == 0 {
        None
    } else {
        Some(0)
    }
}

/// The indices of the conversations that are taken over into the list.
fn admitted_indices(
    convs: &Vec<Conversation>,
    facts: &Vec<ProjectFacts>,
    show_deleted_projects: bool,
) -> (r: Vec<usize>)
    requires
        facts@.len() == convs@.len(),
    ensures
        r@ == admitted(convs@, facts@, show_deleted_projects),
        r@.no_duplicates(),
        forall|i: int| 0 <= i < r@.len() ==> #[trigger] r@[i] < convs@.len(),
{
    if show_deleted_projects {
        return indices_below(convs.len());
    }
    let mut out: Vec<usize> = Vec::new();
    for i in 0..convs.len()
        invariant
            facts@.len() == convs@.len(),
            out@ == present_among(convs@, facts@, i as nat),
            forall|k: int| 0 <= k < out@.len() ==> #[trigger] out@[k] < i,
            out@.no_duplicates(),
    {
        if convs[i].project_path.is_none() || facts[i].exists {
            out.push(i);
        }
    }
    out
}

impl App {
    /// A dashboard with nothing in it.
    fn empty(
        tool: ToolName,
        use_relative_time: bool,
        tool_display: ToolDisplayMode,
        show_thinking: bool,
        show_deleted_projects: bool,
    ) -> (r: App)
        ensures
            r@ == AppView::empty(
                tool,
                use_relative_time,
                tool_display,
                show_thinking,
                show_deleted_projects,
            ),
            r@.wf(),
    {
        let app = App {
            tool,
            conversations: Vec::new(),
            facts: Vec::new(),
            searchable: Vec::new(),
            filtered: Vec::new(),
            selected: None,
            query: String::new(),
            query_words: Vec::new(),
            cursor_pos: 0,
            use_relative_time,
            loading_state: LoadingState::Loading { loaded: 0 },
            dialog_mode: DialogMode::Closed,
            app_mode: AppMode::List,
            status_message: None,
            tool_display,
            show_thinking,
            show_timing: false,
            single_file_mode: false,
            previous_query: String::new(),
            show_deleted_projects,
            view_mode: ListViewMode::Grouped,
            groups: Vec::new(),
            expanded_groups: PathSet::new(),
            rows: Vec::new(),
            selected_row: None,
            preview_visible: true,
            pane_focus: PaneFocus::List,
            preview_scroll: 0,
            preview_viewport_height: 0,
            preview_cache: None,
        };
        proof {
            reveal(list_fits);
            reveal(groups_fit);
            reveal(is_grouping);
            assert(app@.query_words =~= Seq::<Seq<char>>::empty());
            assert(app@.query =~= Seq::<char>::empty());
            assert(app@.previous_query =~= Seq::<char>::empty());
        }
        app
    }

    /// Build the flat list of visible rows from the groups, the filter and the expanded groups.
    fn rebuild_rows(&mut self)
        requires
            old(self)@.list_fits(),
        ensures
            final(self)@ == old(self)@.rows_rebuilt(),
    {
        reveal(list_fits);
        let query_active: bool = self.query.as_str().unicode_len() > 0;
        self.rows = build_rows(
            &self.groups,
            &self.expanded_groups,
            query_active,
            &self.filtered,
            self.conversations.len(),
        );

        // Clamp selection.
        self.selected_row = match self.selected_row {
            Some(s) if s < self.rows.len() => Some(s),
            _ => first_of_list(self.rows.len()),
        };
    }

    /// Expands the first group where none was expanded yet.
    fn seed_expansion(&mut self)
        ensures
            final(self)@ == old(self)@.seeded(),
    {
        if self.expanded_groups.is_empty() && self.groups.len() > 0 {
            if let Some(path) = &self.groups[0].canonical_path {
                self.expanded_groups.insert(path.clone());
            }
        }
    }

    /// Recompute groups and rebuild the visible row vector.
    fn rebuild_groups(&mut self)
        requires
            old(self)@.list_fits(),
        ensures
            final(self)@ == old(self)@.regrouped(final(self)@.groups),
            final(self)@.groups_fit(),
    {
        assert(all_wf(self.conversations@) && self.facts@.len() == self.conversations@.len()) by {
            reveal(list_fits);
        }
        self.groups = group_by_project_path(
            self.conversations.as_slice(),
            self.facts.as_slice(),
        );
        let ghost grouped = self@;
        proof {
            lemma_fits_machine(self);
            lemma_regrouped_keeps_wf(grouped, grouped.groups);
        }
        self.seed_expansion();
        self.rebuild_rows();
    }

    /// Create a new app with all conversations pre-loaded.
    pub fn new(
        tool: ToolName,
        conversations: Vec<Conversation>,
        facts: Vec<ProjectFacts>,
        use_relative_time: bool,
        tool_display: ToolDisplayMode,
        show_thinking: bool,
        show_deleted_projects: bool,
    ) -> (r: App)
        requires
            facts@.len() == conversations@.len(),
            all_wf(conversations@),
        ensures
            r@ == AppView::ready(
                tool,
                conversations@,
                facts@,
                use_relative_time,
                tool_display,
                show_thinking,
                show_deleted_projects,
                r@.groups,
            ),
            r@.wf(),
    {
        let mut app = App::empty(
            tool,
            use_relative_time,
            tool_display,
            show_thinking,
            show_deleted_projects,
        );
        let kept: Vec<usize> = admitted_indices(&conversations, &facts, show_deleted_projects);
        proof {
            lemma_rearranged_wf(conversations@, kept@);
        }
        app.conversations = rearrange(conversations, kept.as_slice());
        app.facts = rearrange(facts, kept.as_slice());
        app.filtered = indices_below(app.conversations.len());
        app.selected = first_of_list(app.filtered.len());
        app.loading_state = LoadingState::Ready;
        assert(app@.list_fits()) by {
            reveal(list_fits);
        }
        app.rebuild_groups();
        app
    }

    /// Create a new app in loading state.
    pub fn new_loading(
        tool: ToolName,
        use_relative_time: bool,
        tool_display: ToolDisplayMode,
        show_thinking: bool,
        show_deleted_projects: bool,
    ) -> (r: App)
        ensures
            r@ == AppView::empty(
                tool,
                use_relative_time,
                tool_display,
                show_thinking,
                show_deleted_projects,
            ),
            r@.wf(),
    {
        App::empty(tool, use_relative_time, tool_display, show_thinking, show_deleted_projects)
    }

    /// Create a new app for viewing a single file directly. `parsed` is the conversation in the
    /// file, where it could be read, and `project_label` names its working directory, or the
    /// file where it has none.
    pub fn new_single_file(
        tool: ToolName,
        path: String,
        parsed: Option<(Conversation, ProjectFacts)>,
        project_label: String,
        use_relative_time: bool,
        tool_display: ToolDisplayMode,
        show_thinking: bool,
    ) -> (r: App)
        requires
            parsed matches Some((conv, _)) ==> conv.wf(),
        ensures
            r@ == AppView::single_file(
                tool,
                path@,
                match parsed {
                    Some((conv, _)) => seq![
                        Conversation { project_name: Some(project_label), ..conv },
                    ],
                    None => Seq::empty(),
                },
                match parsed {
                    Some((_, fact)) => seq![fact],
                    None => Seq::empty(),
                },
                use_relative_time,
                tool_display,
                show_thinking,
            ),
            r@.wf(),
    {
        let mut app = App::empty(tool, use_relative_time, tool_display, show_thinking, true);
        if let Some((conv, fact)) = parsed {
            let mut conv: Conversation = conv;
            // Set project_name the same way as the loader does
            conv.project_name = Some(project_label);
            app.conversations.push(conv);
            app.facts.push(fact);
        }
        app.filtered = indices_below(app.conversations.len());
        app.selected = first_of_list(app.filtered.len());
        app.loading_state = LoadingState::Ready;
        app.app_mode = AppMode::View(
            ViewState::open(
                path,
                Vec::new(),
                Vec::new(),
                tool_display,
                show_thinking,
                false,
                0,
            ),
        );
        app.single_file_mode = true;
        app.view_mode = ListViewMode::Flat;
        app.preview_visible = false;
        assert(app@.list_fits()) by {
            reveal(list_fits);
        }
        app
    }

    /// Recompute the groups where they are shown.
    fn regroup_if_shown(&mut self)
        requires
            old(self)@.list_fits(),
        ensures
            final(self)@ == old(self)@.regrouped_if_shown(final(self)@.groups),
            final(self)@.view_mode == ListViewMode::Grouped ==> final(self)@.groups_fit(),
    {
        if self.view_mode == ListViewMode::Grouped {
            self.rebuild_groups();
        }
    }

    fn extend(&mut self, convs: Vec<Conversation>, facts: Vec<ProjectFacts>)
        requires
            old(self)@.list_fits(),
            facts@.len() == convs@.len(),
            all_wf(convs@),
        ensures
            final(self)@ == old(self)@.extended(convs@, facts@),
            final(self)@.list_fits(),
    {
        reveal(list_fits);
        let mut convs: Vec<Conversation> = convs;
        let mut facts: Vec<ProjectFacts> = facts;
        let ghost was = self.conversations@;
        let ghost more = convs@;
        proof {
            lemma_distinct_len(self.filtered@, was.len());
        }
        self.conversations.append(&mut convs);
        self.facts.append(&mut facts);

        // Rebuild filtered as sequential indices (no search during loading)
        self.filtered = indices_below(self.conversations.len());

        // Select first item if nothing selected yet
        if self.selected.is_none() {
            self.selected = first_of_list(self.filtered.len());
        }

        // Update loading count
        self.loading_state = LoadingState::Loading { loaded: self.conversations.len() };
        assert(self.conversations@ == was + more);
        assert(all_wf(was + more));
    }

    /// Append a batch of conversations during loading.
    /// Defers the sort and the search data until `finish_loading` to avoid repeated work
    /// while provider batches are still arriving.
    pub fn append_conversations(&mut self, new_convs: Vec<Conversation>, new_facts: Vec<
        ProjectFacts,
    >)
        requires
            old(self)@.wf(),
            new_facts@.len() == new_convs@.len(),
            all_wf(new_convs@),
        ensures
            final(self)@ == old(self)@.appended(new_convs@, new_facts@, final(self)@.groups),
            final(self)@.wf(),
    {
        let kept: Vec<usize> = admitted_indices(
            &new_convs,
            &new_facts,
            self.show_deleted_projects,
        );
        proof {
            lemma_rearranged_wf(new_convs@, kept@);
        }
        let convs: Vec<Conversation> = rearrange(new_convs, kept.as_slice());
        let facts: Vec<ProjectFacts> = rearrange(new_facts, kept.as_slice());
        self.extend(convs, facts);
        self.regroup_if_shown();
    }

    /// Puts the newest conversation first.
    fn sort_newest_first(&mut self)
        requires
            old(self)@.list_fits(),
        ensures
            final(self)@ == old(self)@.sorted(),
            final(self)@.list_fits(),
            final(self)@.conversations.len() == old(self)@.conversations.len(),
    {
        reveal(list_fits);
        let ghost before = self.conversations@;
        let order: Vec<usize> = newest_first_order(&self.conversations);
        proof {
            lemma_rearranged_wf(self.conversations@, order@);
        }
        let mut conversations: Vec<Conversation> = Vec::new();
        std::mem::swap(&mut conversations, &mut self.conversations);
        let mut facts: Vec<ProjectFacts> = Vec::new();
        std::mem::swap(&mut facts, &mut self.facts);
        let sorted: Vec<Conversation> = rearrange(conversations, order.as_slice());
        self.facts = rearrange(facts, order.as_slice());

        // Reindex after sorting
        self.conversations = number_conversations(sorted);
        self.loading_state = LoadingState::Ready;
        if self.query.as_str().unicode_len() == 0 {
            // Reset filtered to all indices
            self.filtered = indices_below(self.conversations.len());
            self.selected = first_of_list(self.filtered.len());
        }
    }

    /// Mark loading as complete: sort and transition to Ready. A query that was typed
    /// meanwhile asks for its search.
    pub fn finish_loading(&mut self) -> (r: Effect)
        requires
            old(self)@.wf(),
        ensures
            final(self)@ == old(self)@.loaded(final(self)@.groups),
            final(self)@.wf(),
            final(self)@.conversations.len() == old(self)@.conversations.len(),
            r == (if old(self)@.query.len() == 0 {
                Effect::Nothing
            } else {
                Effect::Search
            }),
    {
        let effect: Effect = if self.query.as_str().unicode_len() == 0 {
            Effect::Nothing
        } else {
            Effect::Search
        };
        self.sort_newest_first();
        self.regroup_if_shown();
        effect
    }

    /// Consume the app and return its conversations.
    pub fn into_conversations(self) -> (r: Vec<Conversation>)
        ensures
            r@ == self@.conversations,
    {
        self.conversations
    }

    /// Replace the search data.
    pub fn set_searchable(&mut self, searchable: Vec<SearchableConversation>)
        ensures
            final(self)@ == (AppView { searchable: searchable@, ..old(self)@ }),
            old(self)@.wf() ==> final(self)@.wf(),
    {
        self.searchable = searchable;
    }

    /// Refresh the cached query words from the normalized query.
    pub fn refresh_query_words(&mut self, normalized: &str)
        ensures
            final(self)@ == old(self)@.words_refreshed(normalized@),
            old(self)@.wf() ==> final(self)@.wf(),
    {
        self.query_words = split_whitespace(normalized);
    }

    /// The results that a search for the query can start from: when the query extends the
    /// previous one, only what passed the filter needs to be looked at again.
    pub fn narrow_hint(&self) -> (r: Option<&Vec<usize>>)
        ensures
            r is Some <==> self@.previous_query.len() > 0 && self@.previous_query.is_prefix_of(
                self@.query,
            ),
            r matches Some(hint) ==> hint@ == self@.filtered,
    {
        if self.previous_query.as_str().unicode_len() > 0 && starts_with(
            self.query.as_str(),
            self.previous_query.as_str(),
        ) {
            Some(&self.filtered)
        } else {
            None
        }
    }

    /// Put the results of a search for the query in place.
    pub fn update_filter(&mut self, results: Vec<usize>, normalized: &str)
        requires
            old(self)@.wf(),
            forall|k: int|
                0 <= k < results@.len() ==> #[trigger] results@[k] < old(self)@.conversations.len(),
            results@.no_duplicates(),
        ensures
            final(self)@ == old(self)@.filter_updated(results@, normalized@),
            final(self)@.wf(),
    {
        self.filtered = results;
        self.previous_query = self.query.clone();
        self.selected = first_of_list(self.filtered.len());

        // Cache parsed query words for render performance
        self.refresh_query_words(normalized);
        assert(self@.list_fits()) by {
            reveal(list_fits);
        }
        if self.view_mode == ListViewMode::Grouped {
            proof {
                reveal(groups_fit);
                lemma_fits_machine(self);
                lemma_rows_rebuilt(self@);
            }
            self.rebuild_rows();
            // Reset selection to first visible row when query changes.
            self.selected_row = first_of_list(self.rows.len());
        }
    }

    /// Toggle expand/collapse on the group of the selected row.
    pub fn toggle_selected_group(&mut self)
        requires
            old(self)@.wf(),
            old(self)@.view_mode == ListViewMode::Grouped,
        ensures
            final(self)@ == old(self)@.group_toggled(),
            final(self)@.wf(),
    {
        proof {
            reveal(groups_fit);
            lemma_fits_machine(self);
        }
        let Some(s) = self.selected_row else { return };
        if s >= self.rows.len() {
            return;
        }
        let group_idx: usize = match self.rows[s] {
            Row::Header { group_idx } => group_idx,
            Row::Conversation { group_idx, .. } => group_idx,
        };
        if group_idx >= self.groups.len() {
            return;
        }
        let Some(path) = &self.groups[group_idx].canonical_path else { return };
        let path: String = path.clone();
        if self.expanded_groups.contains(path.as_str()) {
            self.expanded_groups.remove(path.as_str());
        } else {
            self.expanded_groups.insert(path);
        }
        proof {
            lemma_rows_rebuilt(self@);
        }
        self.rebuild_rows();
    }

    fn expand_all_groups(&mut self)
        requires
            old(self)@.list_fits(),
        ensures
            final(self)@ == old(self)@.all_expanded(),
    {
        let ghost before = self@;
        let count: usize = self.groups.len();
        proof {
            assert(before.expanded.union(group_paths(before.groups.take(0))) =~= before.expanded);
        }
        for g in 0..count
            invariant
                count == before.groups.len(),
                self@ == (AppView {
                    expanded: before.expanded.union(group_paths(before.groups.take(g as int))),
                    ..before
                }),
        {
            let ghost was = self.expanded_groups@;
            if let Some(p) = &self.groups[g].canonical_path {
                self.expanded_groups.insert(p.clone());
            }
            proof {
                let a = before.groups.take(g as int);
                let b = before.groups.take(g + 1);
                assert(b[g as int] == before.groups[g as int]);
                assert forall|id: PathId| group_paths(b).contains(id) <==> (group_paths(a).contains(
                    id,
                ) || group_id(b[g as int]) == Some(id)) by {
                    if group_paths(a).contains(id) {
                        let k = choose|k: int|
                            0 <= k < a.len() && group_id(#[trigger] a[k]) == Some(id);
                        assert(b[k] == a[k]);
                    }
                    if group_paths(b).contains(id) {
                        let k = choose|k: int|
                            0 <= k < b.len() && group_id(#[trigger] b[k]) == Some(id);
                        if k < g {
                            assert(a[k] == b[k]);
                        }
                    }
                }
                assert(self.expanded_groups@ =~= before.expanded.union(group_paths(b)));
            }
        }
        assert(before.groups.take(before.groups.len() as int) =~= before.groups);
        self.rebuild_rows();
    }

    fn collapse_all_groups(&mut self)
        requires
            old(self)@.list_fits(),
        ensures
            final(self)@ == old(self)@.all_collapsed(),
    {
        self.expanded_groups.clear();
        self.rebuild_rows();
    }

    /// Toggle between Flat and Grouped list views.
    fn toggle_view_mode(&mut self)
        requires
            old(self)@.list_fits(),
        ensures
            final(self)@ == old(self)@.view_toggled(final(self)@.groups),
            final(self)@.view_mode == ListViewMode::Grouped ==> final(self)@.groups_fit(),
    {
        match self.view_mode {
            ListViewMode::Flat => {
                self.view_mode = ListViewMode::Grouped;
                self.rebuild_groups();
            },
            ListViewMode::Grouped => {
                self.view_mode = ListViewMode::Flat;
            },
        }
    }

    /// Selects a row, and resets the preview scroll.
    fn select_row(&mut self, row: usize)
        ensures
            final(self)@ == old(self)@.row_selected(Some(row)),
    {
        self.selected_row = Some(row);
        self.preview_scroll = 0;
    }

    /// Jump selection to the Nth visible group header (1-based).
    fn jump_to_group(&mut self, n: usize)
        ensures
            final(self)@ == old(self)@.jumped_to_group(n as nat),
    {
        if n == 0 {
            return;
        }
        let ghost wanted = nth_header(self.rows@, n as nat, 0);
        let count: usize = self.rows.len();
        let mut left: usize = n;
        for i in 0..count
            invariant
                count == self.rows@.len(),
                self@ == old(self)@,
                left > 0,
                wanted == nth_header(old(self)@.rows, n as nat, 0),
                wanted == nth_header(self.rows@, left as nat, i as nat),
        {
            if let Row::Header { .. } = self.rows[i] {
                left = left - 1;
                if left == 0 {
                    self.select_row(i);
                    return;
                }
            }
        }
    }

    /// Move selection up.
    fn select_prev(&mut self)
        requires
            old(self)@.wf(),
        ensures
            final(self)@ == old(self)@.selected_prev(),
    {
        if self.view_mode == ListViewMode::Grouped {
            if let Some(s) = self.selected_row {
                if s > 0 {
                    self.select_row(s - 1);
                }
            }
        } else {
            self.flat_up(1);
        }
    }

    /// Move selection down.
    fn select_next(&mut self)
        requires
            old(self)@.wf(),
        ensures
            final(self)@ == old(self)@.selected_next(),
    {
        if self.view_mode == ListViewMode::Grouped {
            if let Some(s) = self.selected_row {
                if self.rows.len() > 0 && s < self.rows.len() - 1 {
                    self.select_row(s + 1);
                }
            }
        } else {
            self.flat_down(1);
        }
    }

    /// Move the selection of the flat list up.
    fn flat_up(&mut self, amount: usize)
        ensures
            final(self)@ == old(self)@.flat_up(amount as nat),
    {
        if let Some(selected) = self.selected {
            self.selected = Some(difference(selected, amount));
        }
    }

    /// Move the selection of the flat list down.
    fn flat_down(&mut self, amount: usize)
        ensures
            final(self)@ == old(self)@.flat_down(amount as nat),
    {
        if let Some(selected) = self.selected {
            let last: usize = difference(self.filtered.len(), 1);
            self.selected = Some(sum_within(selected, amount, last));
        }
    }

    /// Move selection up by a number of items.
    fn select_up(&mut self, amount: usize)
        ensures
            final(self)@ == old(self)@.selected_up(amount as nat),
    {
        if self.view_mode == ListViewMode::Grouped {
            if let Some(s) = self.selected_row {
                self.select_row(difference(s, amount));
            }
        } else {
            self.flat_up(amount);
        }
    }

    /// Move selection down by a number of items.
    fn select_down(&mut self, amount: usize)
        ensures
            final(self)@ == old(self)@.selected_down(amount as nat),
    {
        if self.view_mode == ListViewMode::Grouped {
            if let Some(s) = self.selected_row {
                let last: usize = difference(self.rows.len(), 1);
                self.select_row(sum_within(s, amount, last));
            }
        } else {
            self.flat_down(amount);
        }
    }

    /// Move selection to first item.
    fn select_first(&mut self)
        requires
            old(self)@.wf(),
        ensures
            final(self)@ == old(self)@.selected_first(),
    {
        if self.view_mode == ListViewMode::Grouped {
            if self.rows.len() > 0 {
                self.select_row(0);
            }
        } else {
            reveal(list_fits);
            self.selected = first_of_list(self.filtered.len());
        }
    }

    /// Move selection to last item.
    fn select_last(&mut self)
        requires
            old(self)@.wf(),
        ensures
            final(self)@ == old(self)@.selected_last(),
    {
        if self.view_mode == ListViewMode::Grouped {
            if self.rows.len() > 0 {
                self.select_row(self.rows.len() - 1);
            }
        } else {
            reveal(list_fits);
            if self.filtered.len() > 0 {
                self.selected = Some(self.filtered.len() - 1);
            }
        }
    }

    /// Conversation index for the currently selected row.
    /// If the selected row is a group header, falls through to the group's
    /// most recent conversation so resume/delete/select still target something useful.
    fn selected_row_conv_idx(&self) -> (r: Option<usize>)
        ensures
            r == self@.selected_row_conversation(),
    {
        let Some(s) = self.selected_row else { return None };
        if s >= self.rows.len() {
            return None;
        }
        match self.rows[s] {
            Row::Conversation { conv_idx, .. } => Some(conv_idx),
            Row::Header { group_idx } => {
                if group_idx < self.groups.len()
                    && self.groups[group_idx].conversation_indices.len() > 0 {
                    Some(self.groups[group_idx].conversation_indices[0])
                } else {
                    None
                }
            },
        }
    }

    /// The index of the selected conversation.
    pub fn selected_conversation(&self) -> (r: Option<usize>)
        requires
            self@.wf(),
        ensures
            r == self@.selected_conversation(),
            r matches Some(i) ==> i < self@.conversations.len(),
    {
        proof {
            law_selected_conversation_is_listed(self@);
        }
        if self.view_mode == ListViewMode::Grouped {
            return self.selected_row_conv_idx();
        }
        let Some(s) = self.selected else { return None };
        if s < self.filtered.len() {
            Some(self.filtered[s])
        } else {
            None
        }
    }

    /// Get the currently selected conversation path.
    fn get_selected_path(&self) -> (r: Option<String>)
        requires
            self@.wf(),
        ensures
            opt_text(r) == self@.selected_path(),
    {
        match self.selected_conversation() {
            Some(i) => Some(self.conversations[i].path.clone()),
            None => None,
        }
    }

    /// Remove the currently selected conversation from the UI list.
    /// This should only be called after the file has been successfully deleted from disk.
    /// Handles index management for conversations, search data, and filtered list.
    pub fn remove_selected_from_list(&mut self)
        requires
            old(self)@.wf(),
        ensures
            final(self)@ == old(self)@.selected_removed(final(self)@.groups),
            final(self)@.wf(),
    {
        let Some(conv_idx) = self.selected_conversation() else { return };
        self.take_out(conv_idx);
        self.regroup_if_shown();
    }

    fn take_out(&mut self, conv_idx: usize)
        requires
            old(self)@.list_fits(),
            conv_idx < old(self)@.conversations.len(),
        ensures
            final(self)@ == old(self)@.taken_out(conv_idx),
            final(self)@.list_fits(),
    {
        reveal(list_fits);
        let ghost convs = self.conversations@;
        let ghost filtered = self.filtered@;
        // Remove from conversations
        self.conversations.remove(conv_idx);
        self.facts.remove(conv_idx);

        // Remove from search data and update indices
        let mut searchable: Vec<SearchableConversation> = Vec::new();
        std::mem::swap(&mut searchable, &mut self.searchable);
        self.searchable = remove_searchable(searchable, conv_idx);

        // Update filtered: remove the deleted index and decrement all indices after it
        self.filtered = remove_index(&self.filtered, conv_idx);

        // Update selection: stay at same position if possible, or move to last item
        if self.filtered.len() == 0 {
            self.selected = None;
        } else if let Some(s) = self.selected {
            if s >= self.filtered.len() {
                self.selected = Some(self.filtered.len() - 1);
            }
        }
        proof {
            assert(all_wf(self.conversations@)) by {
                assert forall|i: int| 0 <= i < self.conversations@.len() implies (
                #[trigger] self.conversations@[i]).wf() by {
                    assert(convs[if i < conv_idx {
                        i
                    } else {
                        i + 1
                    }].wf());
                }
            }
            lemma_indices_without(filtered, conv_idx, convs.len());
        }
    }

    // The preview pane

    pub fn toggle_preview_pane(&mut self)
        ensures
            final(self)@ == old(self)@.preview_toggled(),
            old(self)@.wf() ==> final(self)@.wf(),
    {
        self.preview_visible = !self.preview_visible;
        if !self.preview_visible {
            self.pane_focus = PaneFocus::List;
        }
    }

    pub fn focus_preview(&mut self)
        ensures
            final(self)@ == old(self)@.preview_focused(),
            old(self)@.wf() ==> final(self)@.wf(),
    {
        if self.preview_visible {
            self.pane_focus = PaneFocus::Preview;
        }
    }

    pub fn focus_list(&mut self)
        ensures
            final(self)@ == old(self)@.list_focused(),
            old(self)@.wf() ==> final(self)@.wf(),
    {
        self.pane_focus = PaneFocus::List;
    }

    /// Read the cached preview lines (built earlier by `ensure_preview`).
    pub fn preview_lines(&self) -> (r: &[RenderedLine])
        ensures
            r@ == self@.preview_lines(),
    {
        match &self.preview_cache {
            Some((_, lines)) => lines.as_slice(),
            None => {
                let none: &[RenderedLine] = &[];
                assert(none@ =~= Seq::<RenderedLine>::empty());
                none
            },
        }
    }

    /// Drop the preview cache so the next `ensure_preview` builds it anew.
    /// Used after a resumed session writes new messages to the same file.
    pub fn invalidate_preview(&mut self)
        ensures
            final(self)@ == (AppView { preview: None, ..old(self)@ }),
            old(self)@.wf() ==> final(self)@.wf(),
    {
        self.preview_cache = None;
    }

    /// Maximum valid scroll offset given current preview content and viewport.
    fn preview_max_scroll(&self) -> (r: usize)
        ensures
            r == self@.preview_max_scroll(),
    {
        let total: usize = self.preview_lines().len();
        difference(total, self.preview_viewport_height)
    }

    /// Cache the preview viewport height observed at render time so scroll
    /// handlers can clamp without a layout reference.
    pub fn set_preview_viewport_height(&mut self, height: usize)
        ensures
            final(self)@ == (AppView { preview_viewport_height: height as nat, ..old(self)@ }),
            old(self)@.wf() ==> final(self)@.wf(),
    {
        self.preview_viewport_height = height;
    }

    fn preview_scroll_down(&mut self, amount: usize)
        ensures
            final(self)@ == old(self)@.preview_down(amount as nat),
    {
        let max: usize = self.preview_max_scroll();
        self.preview_scroll = sum_within(self.preview_scroll, amount, max);
    }

    fn preview_scroll_up(&mut self, amount: usize)
        ensures
            final(self)@ == old(self)@.preview_up(amount as nat),
    {
        self.preview_scroll = difference(self.preview_scroll, amount);
    }

    fn preview_page(&self) -> (r: usize)
        ensures
            r == self@.preview_page(),
    {
        if self.preview_viewport_height == 0 {
            1
        } else {
            self.preview_viewport_height
        }
    }

    // The query

    /// Move cursor left by one character.
    fn cursor_left(&mut self)
        ensures
            final(self)@ == old(self)@.cursor_left(),
    {
        if self.cursor_pos > 0 {
            self.cursor_pos = self.cursor_pos - 1;
        }
    }

    /// Move cursor right by one character.
    fn cursor_right(&mut self)
        requires
            old(self)@.cursor_pos <= old(self)@.query.len(),
        ensures
            final(self)@ == old(self)@.cursor_right(),
    {
        let len: usize = self.query.as_str().unicode_len();
        if self.cursor_pos < len {
            self.cursor_pos = self.cursor_pos + 1;
        }
    }

    /// Insert a character at the cursor.
    fn insert_char(&mut self, c: char)
        requires
            old(self)@.cursor_pos <= old(self)@.query.len(),
        ensures
            final(self)@ == old(self)@.query_char_typed(c),
    {
        let mut chars: Vec<char> = chars_of(self.query.as_str());
        chars.insert(self.cursor_pos, c);
        assert(chars.len() == self.query@.len() + 1);
        self.query = string_of(chars.as_slice());
        self.cursor_pos = self.cursor_pos + 1;
    }

    /// Remove the character before the cursor. Returns true if the query was modified.
    fn erase_char(&mut self) -> (r: bool)
        requires
            old(self)@.cursor_pos <= old(self)@.query.len(),
        ensures
            final(self)@ == old(self)@.query_char_erased(),
            r == (old(self)@.cursor_pos > 0),
    {
        if self.cursor_pos == 0 {
            return false;
        }
        let mut chars: Vec<char> = chars_of(self.query.as_str());
        chars.remove(self.cursor_pos - 1);
        self.query = string_of(chars.as_slice());
        self.cursor_pos = self.cursor_pos - 1;
        true
    }

    /// Remove the character at the cursor. Returns true if the query was modified.
    fn delete_char(&mut self) -> (r: bool)
        ensures
            final(self)@ == old(self)@.query_char_deleted(),
            r == (old(self)@.cursor_pos < old(self)@.query.len()),
    {
        let mut chars: Vec<char> = chars_of(self.query.as_str());
        if self.cursor_pos >= chars.len() {
            return false;
        }
        chars.remove(self.cursor_pos);
        self.query = string_of(chars.as_slice());
        true
    }

    /// Delete the word before the cursor (Ctrl+W behavior). `separators` tells of each
    /// character of the query whether it separates words. The answer is the work that the
    /// change asks for.
    pub fn delete_word_backwards(&mut self, separators: &[bool]) -> (r: Effect)
        requires
            old(self)@.wf(),
            separators@.len() == old(self)@.query.len(),
        ensures
            final(self)@ == old(self)@.word_deleted(separators@),
            final(self)@.wf(),
            r == (if old(self)@.cursor_pos == 0 {
                Effect::Nothing
            } else if old(self)@.is_loading() {
                Effect::RefreshQueryWords
            } else {
                Effect::Search
            }),
    {
        let chars: Vec<char> = chars_of(self.query.as_str());
        let cursor: usize = self.cursor_pos;
        let mut new_pos: usize = cursor;

        // First, consume any separators to the left of cursor
        while new_pos > 0 && separators[new_pos - 1]
            invariant
                new_pos <= cursor <= separators@.len(),
                skip_separators(separators@, cursor as nat) == skip_separators(
                    separators@,
                    new_pos as nat,
                ),
            decreases new_pos,
        {
            new_pos = new_pos - 1;
        }
        let ghost word_end = new_pos as nat;

        // Then, consume non-separators (the actual word)
        while new_pos > 0 && !separators[new_pos - 1]
            invariant
                new_pos <= cursor <= separators@.len(),
                skip_word(separators@, word_end) == skip_word(separators@, new_pos as nat),
            decreases new_pos,
        {
            new_pos = new_pos - 1;
        }
        assert(new_pos == word_start(separators@, cursor as nat));
        let mut kept: Vec<char> = sub_chars(chars.as_slice(), 0, new_pos);
        let mut rest: Vec<char> = sub_chars(chars.as_slice(), cursor, chars.len());
        kept.append(&mut rest);
        self.query = string_of(kept.as_slice());
        self.cursor_pos = new_pos;
        assert(self.query@ =~= chars@.take(new_pos as int) + chars@.skip(cursor as int));
        if cursor == 0 {
            Effect::Nothing
        } else if self.is_loading() {
            Effect::RefreshQueryWords
        } else {
            Effect::Search
        }
    }

    pub fn is_loading(&self) -> (r: bool)
        ensures
            r == self@.is_loading(),
    {
        match self.loading_state {
            LoadingState::Loading { .. } => true,
            LoadingState::Ready => false,
        }
    }

    // Dialogs

    /// The selected conversation, to be resumed.
    fn resume_selected(&self) -> (r: KeyOutcome)
        requires
            self@.wf(),
        ensures
            r@ == self@.resume_selected(),
    {
        let action: Option<Action> = match self.get_selected_path() {
            Some(p) => Some(Action::Resume(p)),
            None => None,
        };
        KeyOutcome { action, effect: Effect::Nothing }
    }

    /// The selected conversation, to be handed out.
    fn select_selected(&self) -> (r: KeyOutcome)
        requires
            self@.wf(),
        ensures
            r@ == self@.select_selected(),
    {
        let action: Option<Action> = match self.get_selected_path() {
            Some(p) => Some(Action::Select(p)),
            None => None,
        };
        KeyOutcome { action, effect: Effect::Nothing }
    }

    /// The selected conversation, to be deleted.
    fn delete_selected(&self) -> (r: KeyOutcome)
        requires
            self@.wf(),
        ensures
            r@ == self@.delete_selected(),
    {
        let action: Option<Action> = match self.get_selected_path() {
            Some(p) => Some(Action::Delete(p)),
            None => None,
        };
        KeyOutcome { action, effect: Effect::Nothing }
    }

    fn ask_deletion(&mut self)
        requires
            old(self)@.wf(),
        ensures
            final(self)@ == old(self)@.deletion_asked(),
    {
        if self.get_selected_path().is_some() {
            self.dialog_mode = DialogMode::ConfirmDelete;
        }
    }

    /// Handle a key event during confirmation mode.
    fn handle_confirm_key(&mut self, code: KeyCode) -> (r: KeyOutcome)
        requires
            old(self)@.wf(),
        ensures
            (final(self)@, r@) == old(self)@.confirm_key(code),
    {
        match code {
            KeyCode::Char('y') | KeyCode::Char('Y') => {
                let outcome: KeyOutcome = self.delete_selected();
                self.dialog_mode = DialogMode::Closed;
                outcome
            },
            KeyCode::Char('n') | KeyCode::Char('N') | KeyCode::Esc => {
                self.dialog_mode = DialogMode::Closed;
                KeyOutcome::quiet()
            },
            _ => KeyOutcome::quiet(),
        }
    }

    fn set_menu(&mut self, selected: usize, is_yank: bool)
        ensures
            final(self)@ == old(self)@.menu(selected as nat, is_yank),
    {
        self.dialog_mode = if is_yank {
            DialogMode::YankMenu { selected }
        } else {
            DialogMode::ExportMenu { selected }
        };
    }

    fn choose_option(&mut self, option: usize, is_yank: bool) -> (r: KeyOutcome)
        ensures
            (final(self)@, r@) == old(self)@.menu_chosen(option, is_yank),
    {
        self.dialog_mode = DialogMode::Closed;
        KeyOutcome::asks(Effect::Export { option, to_clipboard: is_yank })
    }

    /// Handle a key event during export/yank menu mode.
    fn handle_menu_key(&mut self, code: KeyCode, selected: usize, is_yank: bool) -> (r: KeyOutcome)
        ensures
            (final(self)@, r@) == old(self)@.menu_key(code, selected, is_yank),
    {
        match code {
            // Navigate up
            KeyCode::Up | KeyCode::Char('k') => {
                self.set_menu(difference(selected, 1), is_yank);
                KeyOutcome::quiet()
            },
            // Navigate down
            KeyCode::Down | KeyCode::Char('j') => {
                self.set_menu(sum_within(selected, 1, EXPORT_OPTION_COUNT - 1), is_yank);
                KeyOutcome::quiet()
            },
            // Number keys for direct selection
            KeyCode::Char('1') => self.choose_option(0, is_yank),
            KeyCode::Char('2') => self.choose_option(1, is_yank),
            KeyCode::Char('3') => self.choose_option(2, is_yank),
            KeyCode::Char('4') => self.choose_option(3, is_yank),
            // Enter to select current option
            KeyCode::Enter => self.choose_option(selected, is_yank),
            // Escape to cancel
            KeyCode::Esc => {
                self.dialog_mode = DialogMode::Closed;
                KeyOutcome::quiet()
            },
            _ => KeyOutcome::quiet(),
        }
    }

    /// Handle a key event during help overlay mode.
    fn handle_help_key(&mut self, code: KeyCode) -> (r: KeyOutcome)
        ensures
            (final(self)@, r@) == old(self)@.help_key(code),
    {
        match code {
            KeyCode::Char('?') | KeyCode::Char('q') | KeyCode::Esc => {
                self.dialog_mode = DialogMode::Closed;
                KeyOutcome::quiet()
            },
            _ => KeyOutcome::quiet(),
        }
    }

    // The viewer

    /// Scroll the viewer down.
    fn view_scroll_down(&mut self, amount: usize, viewport_height: usize)
        requires
            old(self)@.viewing is Some,
        ensures
            final(self)@ == old(self)@.reading(
                old(self)@.viewing->0.scrolled_down(amount as nat, viewport_height as nat),
            ),
    {
        match &mut self.app_mode {
            AppMode::View(state) => {
                state.scroll_down(amount, viewport_height);
            },
            AppMode::List => {},
        }
    }

    /// Scroll the viewer up.
    fn view_scroll_up(&mut self, amount: usize)
        requires
            old(self)@.viewing is Some,
        ensures
            final(self)@ == old(self)@.reading(old(self)@.viewing->0.scrolled_up(amount as nat)),
    {
        match &mut self.app_mode {
            AppMode::View(state) => {
                state.scroll_up(amount);
            },
            AppMode::List => {},
        }
    }

    /// Jump to top.
    fn view_scroll_to_top(&mut self)
        requires
            old(self)@.viewing is Some,
        ensures
            final(self)@ == old(self)@.reading(old(self)@.viewing->0.scrolled_to(0)),
    {
        match &mut self.app_mode {
            AppMode::View(state) => {
                state.scroll_to_top();
            },
            AppMode::List => {},
        }
    }

    /// Jump to bottom.
    fn view_scroll_to_bottom(&mut self, viewport_height: usize)
        requires
            old(self)@.viewing is Some,
        ensures
            final(self)@ == old(self)@.reading(old(self)@.viewing->0.scrolled_to(
                old(self)@.viewing->0.max_scroll(viewport_height as nat),
            )),
    {
        match &mut self.app_mode {
            AppMode::View(state) => {
                state.scroll_to_bottom(viewport_height);
            },
            AppMode::List => {},
        }
    }

    /// Start search mode in view.
    fn start_view_search(&mut self)
        requires
            old(self)@.viewing is Some,
        ensures
            final(self)@ == old(self)@.reading(old(self)@.viewing->0.search_started()),
    {
        match &mut self.app_mode {
            AppMode::View(state) => {
                state.start_view_search();
            },
            AppMode::List => {},
        }
    }

    /// Go to next search match.
    fn next_search_match(&mut self, viewport_height: usize)
        requires
            old(self)@.viewing is Some,
            old(self)@.viewing->0.wf(),
        ensures
            final(self)@ == old(self)@.reading(old(self)@.viewing->0.next_match(viewport_height as nat)),
    {
        match &mut self.app_mode {
            AppMode::View(state) => {
                state.next_search_match(viewport_height);
            },
            AppMode::List => {},
        }
    }

    /// Go to previous search match.
    fn prev_search_match(&mut self, viewport_height: usize)
        requires
            old(self)@.viewing is Some,
            old(self)@.viewing->0.wf(),
        ensures
            final(self)@ == old(self)@.reading(old(self)@.viewing->0.prev_match(viewport_height as nat)),
    {
        match &mut self.app_mode {
            AppMode::View(state) => {
                state.prev_search_match(viewport_height);
            },
            AppMode::List => {},
        }
    }

    /// Leave the search in view.
    fn clear_view_search(&mut self)
        requires
            old(self)@.viewing is Some,
        ensures
            final(self)@ == old(self)@.reading(old(self)@.viewing->0.search_cleared()),
    {
        match &mut self.app_mode {
            AppMode::View(state) => {
                state.clear_search();
            },
            AppMode::List => {},
        }
    }

    /// End the typing of a search query.
    fn confirm_view_search(&mut self)
        requires
            old(self)@.viewing is Some,
        ensures
            final(self)@ == old(self)@.reading(old(self)@.viewing->0.search_confirmed()),
    {
        match &mut self.app_mode {
            AppMode::View(state) => {
                state.confirm_search();
            },
            AppMode::List => {},
        }
    }

    /// Add a character to the search query.
    fn type_view_search_char(&mut self, c: char)
        requires
            old(self)@.viewing is Some,
        ensures
            final(self)@ == old(self)@.reading(old(self)@.viewing->0.search_char_typed(c)),
    {
        match &mut self.app_mode {
            AppMode::View(state) => {
                state.type_search_char(c);
            },
            AppMode::List => {},
        }
    }

    /// Take the last character off the search query.
    fn erase_view_search_char(&mut self)
        requires
            old(self)@.viewing is Some,
        ensures
            final(self)@ == old(self)@.reading(old(self)@.viewing->0.search_char_erased()),
    {
        match &mut self.app_mode {
            AppMode::View(state) => {
                state.erase_search_char();
            },
            AppMode::List => {},
        }
    }

    /// Cycle tool display mode in view mode.
    fn toggle_view_tools(&mut self) -> (r: KeyOutcome)
        requires
            old(self)@.viewing is Some,
        ensures
            final(self)@ == old(self)@.tools_toggled(old(self)@.viewing->0),
            r@ == asks(Effect::ReRender),
    {
        if let AppMode::View(state) = &mut self.app_mode {
            state.tool_display = state.tool_display.next();
            self.tool_display = state.tool_display;  // Persist at app level
        }
        KeyOutcome::asks(Effect::ReRender)
    }

    /// Toggle thinking visibility in view mode.
    fn toggle_view_thinking(&mut self) -> (r: KeyOutcome)
        requires
            old(self)@.viewing is Some,
        ensures
            final(self)@ == old(self)@.thinking_toggled(old(self)@.viewing->0),
            r@ == asks(Effect::ReRender),
    {
        if let AppMode::View(state) = &mut self.app_mode {
            state.show_thinking = !state.show_thinking;
            self.show_thinking = state.show_thinking;  // Persist at app level
        }
        KeyOutcome::asks(Effect::ReRender)
    }

    /// Toggle timing visibility in view mode (timestamps and durations).
    fn toggle_view_timing(&mut self) -> (r: KeyOutcome)
        requires
            old(self)@.viewing is Some,
        ensures
            final(self)@ == old(self)@.timing_toggled(old(self)@.viewing->0),
            r@ == asks(Effect::ReRender),
    {
        if let AppMode::View(state) = &mut self.app_mode {
            state.show_timing = !state.show_timing;
            self.show_timing = state.show_timing;  // Persist at app level
        }
        KeyOutcome::asks(Effect::ReRender)
    }

    /// Exit view mode and return to list.
    pub fn exit_view_mode(&mut self)
        ensures
            final(self)@ == old(self)@.back_to_list(),
            old(self)@.wf() ==> final(self)@.wf(),
    {
        self.app_mode = AppMode::List;
    }

    /// Take note of whether the selected conversation was deleted from disk.
    pub fn finish_deletion(&mut self, deleted: bool)
        requires
            old(self)@.wf(),
        ensures
            final(self)@ == old(self)@.deletion_finished(deleted, final(self)@.groups),
            final(self)@.wf(),
    {
        if deleted {
            self.remove_selected_from_list();
            self.exit_view_mode();
        }
    }

    /// Leave the viewer; in single file mode that quits the app.
    fn leave_viewer(&mut self) -> (r: KeyOutcome)
        ensures
            (final(self)@, r@) == old(self)@.viewer_left(),
    {
        if self.single_file_mode {
            return KeyOutcome::quit();
        }
        self.exit_view_mode();
        KeyOutcome::quiet()
    }

    /// Show the path of the conversation being read.
    fn show_view_path(&mut self, at: u64)
        requires
            old(self)@.viewing is Some,
        ensures
            final(self)@ == old(self)@.telling(old(self)@.viewing->0.conversation_path, at),
    {
        if let AppMode::View(state) = &self.app_mode {
            self.status_message = Some((state.conversation_path.clone(), at));
        }
    }

    /// Set the status line.
    fn tell(&mut self, message: String, at: u64)
        ensures
            final(self)@ == old(self)@.telling(message@, at),
    {
        self.status_message = Some((message, at));
    }

    /// The search mode of the viewer.
    fn view_search_mode(&self) -> (r: ViewSearchMode)
        requires
            self@.viewing is Some,
        ensures
            r == self@.viewing->0.search_mode,
    {
        match &self.app_mode {
            AppMode::View(state) => state.search_mode,
            AppMode::List => ViewSearchMode::Off,
        }
    }

    /// Handle key events while typing a search query.
    fn handle_search_typing_key(&mut self, code: KeyCode) -> (r: KeyOutcome)
        requires
            old(self)@.viewing is Some,
        ensures
            (final(self)@, r@) == old(self)@.search_typing_key(old(self)@.viewing->0, code),
    {
        match code {
            KeyCode::Char(c) => self.type_view_search_char(c),
            KeyCode::Backspace => self.erase_view_search_char(),
            KeyCode::Enter => self.confirm_view_search(),
            KeyCode::Esc => self.clear_view_search(),
            _ => {},
        }
        KeyOutcome::quiet()
    }

    /// Handle characters in view mode.
    fn handle_view_char(&mut self, c: char, control: bool, viewport_height: usize, at: u64) -> (r:
        KeyOutcome)
        requires
            old(self)@.wf(),
            old(self)@.viewing is Some,
        ensures
            (final(self)@, r@) == old(self)@.view_char(
                old(self)@.viewing->0,
                c,
                control,
                viewport_height as nat,
                at,
            ),
    {
        let half_page: usize = viewport_height / 2;
        let active: bool = self.view_search_mode() == ViewSearchMode::Active;
        match c {
            'q' => {
                return self.leave_viewer();
            },
            // Scroll one line
            'j' => self.view_scroll_down(1, viewport_height),
            'k' => self.view_scroll_up(1),
            // Scroll half a page, with or without Ctrl
            'd' => self.view_scroll_down(half_page, viewport_height),
            'u' => self.view_scroll_up(half_page),
            // Jump to top or bottom
            'g' => self.view_scroll_to_top(),
            'G' => self.view_scroll_to_bottom(viewport_height),
            // Start search
            '/' => self.start_view_search(),
            // Next match
            'n' => {
                if !control && active {
                    self.next_search_match(viewport_height);
                }
            },
            // Previous match
            'N' => {
                if active {
                    self.prev_search_match(viewport_height);
                }
            },
            't' => {
                return self.toggle_view_tools();
            },
            'T' => {
                return self.toggle_view_thinking();
            },
            'i' => {
                return self.toggle_view_timing();
            },
            // Show path
            'p' => self.show_view_path(at),
            // Copy path to clipboard
            'Y' => {
                return KeyOutcome::asks(Effect::CopyPath);
            },
            // Copy session ID to clipboard
            'I' => {
                if self.session_id().is_some() {
                    return KeyOutcome::asks(Effect::CopySessionId);
                }
            },
            // Open export menu (save to file)
            'e' => {
                self.dialog_mode = DialogMode::ExportMenu { selected: 0 };
            },
            // Open yank menu (copy to clipboard)
            'y' => {
                self.dialog_mode = DialogMode::YankMenu { selected: 0 };
            },
            // Open help overlay
            '?' => {
                self.dialog_mode = DialogMode::Help;
            },
            // Ctrl+X - delete (disabled in single file mode)
            'x' => {
                if control && !self.single_file_mode {
                    self.dialog_mode = DialogMode::ConfirmDelete;
                }
            },
            // Ctrl+R - resume (disabled in single file mode)
            'r' => {
                if control && !self.single_file_mode {
                    return self.resume_selected();
                }
            },
            // Ctrl+C - quit the app
            'c' => {
                if control {
                    return KeyOutcome::quit();
                }
            },
            _ => {},
        }
        KeyOutcome::quiet()
    }

    /// Handle key events in view mode.
    fn handle_view_key(&mut self, code: KeyCode, control: bool, viewport_height: usize, at: u64)
        -> (r: KeyOutcome)
        requires
            old(self)@.wf(),
            old(self)@.viewing is Some,
        ensures
            (final(self)@, r@) == old(self)@.view_key(
                old(self)@.viewing->0,
                code,
                control,
                viewport_height as nat,
                at,
            ),
    {
        // First check if we're in search typing mode
        let mode: ViewSearchMode = self.view_search_mode();
        if mode == ViewSearchMode::Typing {
            return self.handle_search_typing_key(code);
        }
        match code {
            // Exit view mode (or clear search if active)
            KeyCode::Esc => {
                if mode == ViewSearchMode::Active {
                    self.clear_view_search();
                } else {
                    return self.leave_viewer();
                }
            },
            KeyCode::Down => self.view_scroll_down(1, viewport_height),
            KeyCode::Up => self.view_scroll_up(1),
            KeyCode::PageDown => self.view_scroll_down(viewport_height, viewport_height),
            KeyCode::PageUp => self.view_scroll_up(viewport_height),
            KeyCode::Home => self.view_scroll_to_top(),
            KeyCode::End => self.view_scroll_to_bottom(viewport_height),
            KeyCode::Char(c) => {
                return self.handle_view_char(c, control, viewport_height, at);
            },
            _ => {},
        }
        KeyOutcome::quiet()
    }

    /// The session id of the conversation being read: the name of its file without the
    /// extension.
    pub fn session_id(&self) -> (r: Option<String>)
        ensures
            opt_text(r) == (match self@.viewing {
                Some(v) => spec_file_stem(v.conversation_path),
                None => None,
            }),
    {
        match &self.app_mode {
            AppMode::View(state) => file_stem(state.conversation_path.as_str()),
            AppMode::List => None,
        }
    }

    // The list

    /// The work that a change of the query asks for, or nothing where there was no change.
    fn after_edit(changed: bool, effect: Effect) -> (r: KeyOutcome)
        ensures
            r@ == (if changed {
                asks(effect)
            } else {
                quiet()
            }),
    {
        if changed {
            KeyOutcome::asks(effect)
        } else {
            KeyOutcome::quiet()
        }
    }

    /// Handle key events in the list while loading: navigation and typing, but no selection.
    fn handle_loading_key(&mut self, code: KeyCode, control: bool) -> (r: KeyOutcome)
        requires
            old(self)@.wf(),
        ensures
            (final(self)@, r@) == old(self)@.loading_key(code, control),
    {
        match code {
            KeyCode::Esc => {
                return KeyOutcome::quit();
            },
            KeyCode::Left => self.cursor_left(),
            KeyCode::Right => self.cursor_right(),
            KeyCode::Up => self.flat_up(1),
            KeyCode::Down => self.flat_down(1),
            KeyCode::PageUp => self.flat_up(10),
            KeyCode::PageDown => self.flat_down(10),
            KeyCode::Backspace => {
                let changed: bool = self.erase_char();
                return Self::after_edit(changed, Effect::RefreshQueryWords);
            },
            KeyCode::Delete => {
                let changed: bool = self.delete_char();
                return Self::after_edit(changed, Effect::RefreshQueryWords);
            },
            KeyCode::Char(c) => {
                if control {
                    match c {
                        'c' => {
                            return KeyOutcome::quit();
                        },
                        'n' => {
                            self.flat_down(1);
                            return KeyOutcome::quiet();
                        },
                        'p' => {
                            self.flat_up(1);
                            return KeyOutcome::quiet();
                        },
                        'w' => {
                            return KeyOutcome::asks(Effect::DeleteWord);
                        },
                        _ => {},
                    }
                }
                // Open help overlay
                if c == '?' {
                    self.dialog_mode = DialogMode::Help;
                } else {
                    // Allow typing during loading - query is buffered for when loading finishes
                    self.insert_char(c);
                    return KeyOutcome::asks(Effect::RefreshQueryWords);
                }
            },
            _ => {},
        }
        KeyOutcome::quiet()
    }

    /// Handle characters while the preview pane is focused.
    fn handle_preview_char(&mut self, c: char, control: bool) -> (r: KeyOutcome)
        requires
            old(self)@.wf(),
        ensures
            (final(self)@, r@) == old(self)@.preview_key(KeyCode::Char(c), control),
    {
        match c {
            'h' => self.focus_list(),
            'j' => self.preview_scroll_down(1),
            'k' => self.preview_scroll_up(1),
            'd' => {
                if control {
                    let page: usize = self.preview_page();
                    self.preview_scroll_down(page / 2);
                }
            },
            'u' => {
                if control {
                    let page: usize = self.preview_page();
                    self.preview_scroll_up(page / 2);
                }
            },
            'g' => {
                self.preview_scroll = 0;
            },
            'G' => {
                if !control {
                    self.preview_scroll = self.preview_max_scroll();
                }
            },
            'q' | 'c' => {
                if control {
                    return KeyOutcome::quit();
                }
            },
            // Conversation actions still work while preview is focused -
            // the selected row in the list is the natural target.
            'r' => {
                if control {
                    return self.resume_selected();
                }
            },
            'o' => {
                if control {
                    return self.select_selected();
                }
            },
            'x' => {
                if control {
                    self.ask_deletion();
                }
            },
            '?' => {
                self.dialog_mode = DialogMode::Help;
            },
            _ => {},
        }
        KeyOutcome::quiet()
    }

    /// Handle key events while the preview pane is focused: scroll keys go to the preview.
    fn handle_preview_key(&mut self, code: KeyCode, control: bool) -> (r: KeyOutcome)
        requires
            old(self)@.wf(),
        ensures
            (final(self)@, r@) == old(self)@.preview_key(code, control),
    {
        match code {
            KeyCode::Esc | KeyCode::Left => self.focus_list(),
            KeyCode::Down => self.preview_scroll_down(1),
            KeyCode::Up => self.preview_scroll_up(1),
            KeyCode::PageDown => {
                let page: usize = self.preview_page();
                self.preview_scroll_down(page);
            },
            KeyCode::PageUp => {
                let page: usize = self.preview_page();
                self.preview_scroll_up(page);
            },
            KeyCode::Enter => {
                return self.select_selected();
            },
            KeyCode::Char(c) => {
                return self.handle_preview_char(c, control);
            },
            _ => {},
        }
        KeyOutcome::quiet()
    }

    /// Whether a key is one of the dashboard's own.
    fn is_hotkey(&self, code: KeyCode, control: bool) -> (r: bool)
        ensures
            r == self@.is_hotkey(code, control),
    {
        let grouped: bool = self.view_mode == ListViewMode::Grouped;
        let no_query: bool = self.query.as_str().unicode_len() == 0;
        match code {
            KeyCode::Tab | KeyCode::BackTab => grouped,
            KeyCode::Right => grouped && self.preview_visible && no_query,
            KeyCode::Char('G') => !control,
            KeyCode::Char('*') | KeyCode::Char('P') => grouped,
            KeyCode::Char(c) => grouped && '1' <= c && c <= '9' && no_query && !control,
            _ => false,
        }
    }

    /// Handle the dashboard's own keys, before they can be typed or move a selection.
    fn handle_hotkey(&mut self, code: KeyCode)
        requires
            old(self)@.wf(),
            code != KeyCode::Char('G') ==> old(self)@.view_mode == ListViewMode::Grouped,
        ensures
            final(self)@ == old(self)@.hotkey(code, final(self)@.groups),
            final(self)@.view_mode == ListViewMode::Grouped && old(self)@.view_mode
                == ListViewMode::Flat ==> final(self)@.groups_fit(),
    {
        match code {
            KeyCode::Tab => self.toggle_selected_group(),
            KeyCode::BackTab => self.collapse_all_groups(),
            KeyCode::Right => self.focus_preview(),
            KeyCode::Char(c) => {
                if c == '*' {
                    self.expand_all_groups();
                } else if c == 'G' {
                    self.toggle_view_mode();
                } else if c == 'P' {
                    self.toggle_preview_pane();
                } else {
                    let n: usize = if '1' <= c && c <= '9' {
                        (c as u32 - '0' as u32) as usize
                    } else {
                        0
                    };
                    self.jump_to_group(n);
                }
            },
            _ => {},
        }
    }

    /// Handle characters in the list.
    fn handle_list_char(&mut self, c: char, control: bool, viewport_height: usize) -> (r: KeyOutcome)
        requires
            old(self)@.wf(),
        ensures
            (final(self)@, r@) == old(self)@.list_char(c, control, viewport_height as nat),
    {
        if control {
            match c {
                'c' => {
                    return KeyOutcome::quit();
                },
                'n' => {
                    self.select_next();
                    return KeyOutcome::quiet();
                },
                'p' => {
                    self.select_prev();
                    return KeyOutcome::quiet();
                },
                // Ctrl+D - half page down (vim-style)
                'd' => {
                    self.select_down(viewport_height / 2);
                    return KeyOutcome::quiet();
                },
                // Ctrl+U - half page up (vim-style)
                'u' => {
                    self.select_up(viewport_height / 2);
                    return KeyOutcome::quiet();
                },
                // Ctrl+X - delete conversation
                'x' => {
                    self.ask_deletion();
                    return KeyOutcome::quiet();
                },
                'r' => {
                    return self.resume_selected();
                },
                // Ctrl+O - select and exit (for scripting)
                'o' => {
                    return self.select_selected();
                },
                'w' => {
                    return KeyOutcome::asks(Effect::DeleteWord);
                },
                _ => {},
            }
        }
        // Open help overlay
        if c == '?' {
            self.dialog_mode = DialogMode::Help;
            return KeyOutcome::quiet();
        }
        self.insert_char(c);
        KeyOutcome::asks(Effect::Search)
    }

    /// Handle key events in the list once everything is loaded.
    fn handle_ready_key(&mut self, code: KeyCode, control: bool, viewport_height: usize) -> (r:
        KeyOutcome)
        requires
            old(self)@.wf(),
        ensures
            (final(self)@, r@) == old(self)@.ready_key(code, control, viewport_height as nat),
    {
        match code {
            KeyCode::Esc => {
                return KeyOutcome::quit();
            },
            KeyCode::Left => self.cursor_left(),
            KeyCode::Right => self.cursor_right(),
            KeyCode::Up => self.select_prev(),
            KeyCode::Down => self.select_next(),
            KeyCode::Home => self.select_first(),
            KeyCode::End => self.select_last(),
            KeyCode::PageUp => self.select_up(10),
            KeyCode::PageDown => self.select_down(10),
            KeyCode::Backspace => {
                let changed: bool = self.erase_char();
                return Self::after_edit(changed, Effect::Search);
            },
            KeyCode::Delete => {
                let changed: bool = self.delete_char();
                return Self::after_edit(changed, Effect::Search);
            },
            KeyCode::Char(c) => {
                return self.handle_list_char(c, control, viewport_height);
            },
            // Enter triggers view mode entry, see `enter_step`
            _ => {},
        }
        KeyOutcome::quiet()
    }

    /// Handle key events in list mode.
    fn handle_list_key(&mut self, code: KeyCode, control: bool, viewport_height: usize) -> (r:
        KeyOutcome)
        requires
            old(self)@.wf(),
        ensures
            (final(self)@, r@) == old(self)@.list_key(
                code,
                control,
                viewport_height as nat,
                final(self)@.groups,
            ),
            final(self)@.view_mode == ListViewMode::Grouped && old(self)@.view_mode
                == ListViewMode::Flat ==> final(self)@.groups_fit(),
    {
        // During loading, allow navigation and typing but not Enter selection
        if self.is_loading() {
            return self.handle_loading_key(code, control);
        }
        // Preview-pane focused: scroll keys go to preview, not the list.
        if self.view_mode == ListViewMode::Grouped && self.pane_focus == PaneFocus::Preview {
            return self.handle_preview_key(code, control);
        }
        // Hotkeys are handled before generic typing so they aren't shadowed.
        if self.is_hotkey(code, control) {
            self.handle_hotkey(code);
            return KeyOutcome::quiet();
        }
        self.handle_ready_key(code, control, viewport_height)
    }

    /// Handle a key event. `viewport_height` is the visible content area height for scrolling,
    /// and `at` the time that a status message is set at.
    pub fn handle_key(
        &mut self,
        code: KeyCode,
        modifiers: KeyModifiers,
        viewport_height: usize,
        at: u64,
    ) -> (r: KeyOutcome)
        requires
            old(self)@.wf(),
        ensures
            (final(self)@, r@) == old(self)@.after_key(
                code,
                modifiers,
                viewport_height as nat,
                at,
                final(self)@.groups,
            ),
            final(self)@.wf(),
    {
        let ghost before = self@;
        proof {
            lemma_fits_machine(self);
        }
        // Handle dialogs first, then delegate based on app mode
        let viewing: bool = match &self.app_mode {
            AppMode::View(_) => true,
            AppMode::List => false,
        };
        let outcome: KeyOutcome = match self.dialog_mode {
            DialogMode::ConfirmDelete => self.handle_confirm_key(code),
            DialogMode::ExportMenu { selected } => self.handle_menu_key(code, selected, false),
            DialogMode::YankMenu { selected } => self.handle_menu_key(code, selected, true),
            DialogMode::Help => self.handle_help_key(code),
            DialogMode::Closed => if viewing {
                self.handle_view_key(code, modifiers.control, viewport_height, at)
            } else {
                self.handle_list_key(code, modifiers.control, viewport_height)
            },
        };
        proof {
            lemma_fits_machine(self);
            lemma_key_result_wf(
                before,
                self@,
                code,
                modifiers,
                viewport_height as nat,
                at,
            );
        }
        outcome
    }

    /// Take in what came from the loader.
    pub fn handle_loader_event(&mut self, event: LoaderEvent) -> (r: LoaderOutcome)
        requires
            old(self)@.wf(),
            event matches LoaderEvent::Batch { conversations, facts } ==> facts@.len()
                == conversations@.len() && all_wf(conversations@),
        ensures
            (final(self)@, r) == old(self)@.after_loader_event(event, final(self)@.groups),
            final(self)@.wf(),
    {
        match event {
            // Fatal error - the terminal is restored and the error returned
            LoaderEvent::Fatal => LoaderOutcome {
                step: LoaderStep::Fatal,
                finished: false,
                effect: Effect::Nothing,
            },
            // Logged by loader, continue
            LoaderEvent::ProjectError => LoaderOutcome {
                step: LoaderStep::Again,
                finished: false,
                effect: Effect::Nothing,
            },
            LoaderEvent::Batch { conversations, facts } => {
                self.append_conversations(conversations, facts);
                LoaderOutcome { step: LoaderStep::Again, finished: false, effect: Effect::Nothing }
            },
            LoaderEvent::Done => {
                let effect: Effect = self.finish_loading();
                // Check for empty conversations
                let step: LoaderStep = if self.conversations.len() == 0 {
                    LoaderStep::NoHistory
                } else {
                    LoaderStep::Again
                };
                LoaderOutcome { step, finished: true, effect }
            },
            LoaderEvent::Idle => LoaderOutcome {
                step: LoaderStep::Draw,
                finished: false,
                effect: Effect::Nothing,
            },
            LoaderEvent::Disconnected => {
                // Loader finished unexpectedly
                if !self.is_loading() {
                    return LoaderOutcome {
                        step: LoaderStep::Draw,
                        finished: false,
                        effect: Effect::Nothing,
                    };
                }
                let effect: Effect = self.finish_loading();
                let step: LoaderStep = if self.conversations.len() == 0 {
                    LoaderStep::NoHistory
                } else {
                    LoaderStep::Draw
                };
                LoaderOutcome { step, finished: true, effect }
            },
        }
    }

    // Requests to the surroundings

    /// What is to be rendered so that the selected conversation can be opened.
    pub fn plan_view(&self, content_width: usize, registered: &[ProviderKind]) -> (r: Option<
        RenderRequest,
    >)
        requires
            self@.wf(),
        ensures
            request_view(r) == self@.view_request(content_width as nat, registered@),
    {
        let Some(i) = self.selected_conversation() else { return None };
        let conv: &Conversation = &self.conversations[i];
        let (assistant_label, assistant_color, assistant_dim_color) = provider_theme(
            conv.provider,
            &self.tool,
        );
        Some(
            RenderRequest {
                path: conv.path.clone(),
                options: RenderOptions {
                    tool_display: self.tool_display,
                    show_thinking: self.show_thinking,
                    show_timing: self.show_timing,
                    content_width,
                    assistant_label,
                    assistant_color,
                    assistant_dim_color,
                },
                source: choose_source(conv.provider, i, registered),
            },
        )
    }

    /// Enter view mode for the currently selected conversation with what was read and rendered
    /// for it, or tell why that failed.
    pub fn enter_view_mode(
        &mut self,
        content_width: usize,
        opened: Result<(Vec<LogEntry>, Vec<RenderedLine>), String>,
        at: u64,
    )
        requires
            old(self)@.wf(),
        ensures
            final(self)@ == old(self)@.view_entered(content_width as nat, opened, at),
            final(self)@.wf(),
    {
        let Some(path) = self.get_selected_path() else { return };
        match opened {
            Ok((entries, lines)) => {
                let state: ViewState = ViewState::open(
                    path,
                    entries,
                    lines,
                    self.tool_display,
                    self.show_thinking,
                    self.show_timing,
                    content_width,
                );
                self.app_mode = AppMode::View(state);
            },
            Err(e) => {
                let message: String = concat("Failed to open: ", e.as_str());
                self.tell(message, at);
            },
        }
    }

    /// What is to be rendered so that the viewer shows its current settings.
    pub fn plan_re_render(&self, registered: &[ProviderKind]) -> (r: Option<RenderRequest>)
        ensures
            request_view(r) == self@.re_render_request(registered@),
    {
        let AppMode::View(state) = &self.app_mode else { return None };
        let path: String = state.conversation_path.clone();
        let found: Option<usize> = find_conversation(self.conversations.as_slice(), path.as_str());
        let kind: ProviderKind = match found {
            Some(i) => self.conversations[i].provider,
            None => ProviderKind::Claude,
        };
        let (assistant_label, assistant_color, assistant_dim_color) = provider_theme(
            kind,
            &self.tool,
        );

        // Use cached entries if available, otherwise read from disk
        let source: EntrySource = if state.cached_entries.len() > 0 {
            EntrySource::Cached
        } else {
            match found {
                Some(i) => choose_source(kind, i, registered),
                None => EntrySource::File,
            }
        };
        Some(
            RenderRequest {
                path,
                options: RenderOptions {
                    tool_display: state.tool_display,
                    show_thinking: state.show_thinking,
                    show_timing: state.show_timing,
                    content_width: state.content_width,
                    assistant_label,
                    assistant_color,
                    assistant_dim_color,
                },
                source,
            },
        )
    }

    /// Show what was rendered for the viewer. `entries` are the messages, where they had to be
    /// read, and `lines` the lines, where that succeeded.
    pub fn re_render_view(
        &mut self,
        entries: Option<Vec<LogEntry>>,
        lines: Option<Vec<RenderedLine>>,
        viewport_height: usize,
    )
        requires
            old(self)@.wf(),
        ensures
            final(self)@ == old(self)@.re_rendered(entries, lines, viewport_height as nat),
            final(self)@.wf(),
    {
        let ghost before = self@;
        let ghost read = if entries is Some {
            Some(entries->0@)
        } else {
            None
        };
        let ghost shown = if lines is Some {
            lines->0@
        } else {
            Seq::empty()
        };
        match &mut self.app_mode {
            AppMode::View(state) => {
                if let Some(e) = entries {
                    state.cached_entries = e;
                }
                if let Some(l) = lines {
                    state.show_lines(l, viewport_height);
                }
            },
            AppMode::List => {},
        }
        proof {
            if before.viewing is Some {
                let v = before.viewing->0;
                let e = match read {
                    Some(e) => e,
                    None => v.cached_entries,
                };
                let l = shown;
                law_view_steps_keep_the_invariant(v, ' ', 0, l, e, viewport_height as nat);
                law_view_steps_keep_the_invariant(
                    v.with_entries(e),
                    ' ',
                    0,
                    l,
                    e,
                    viewport_height as nat,
                );
            }
        }
    }

    /// Check if view needs re-render due to width change.
    pub fn check_view_resize(&mut self, new_content_width: usize) -> (r: Effect)
        requires
            old(self)@.wf(),
        ensures
            final(self)@ == old(self)@.resized(new_content_width as nat),
            final(self)@.wf(),
            r == (if old(self)@.width_differs(new_content_width as nat) {
                Effect::ReRender
            } else {
                Effect::Nothing
            }),
    {
        match &mut self.app_mode {
            AppMode::View(state) => {
                if state.content_width != new_content_width {
                    state.content_width = new_content_width;
                    Effect::ReRender
                } else {
                    Effect::Nothing
                }
            },
            AppMode::List => Effect::Nothing,
        }
    }

    /// What is to be exported for an option of the export menu.
    pub fn plan_export(&self, option: usize, registered: &[ProviderKind]) -> (r: Option<
        ExportRequest,
    >)
        ensures
            export_view(r) == self@.export_request(option as nat, registered@),
    {
        let AppMode::View(state) = &self.app_mode else { return None };
        let Some(format) = ExportFormat::from_index(option) else { return None };
        let path: String = state.conversation_path.clone();
        let found: Option<usize> = find_conversation(self.conversations.as_slice(), path.as_str());
        let (kind, source): (Option<ProviderKind>, EntrySource) = match found {
            Some(i) => {
                let kind: ProviderKind = self.conversations[i].provider;
                (Some(kind), choose_source(kind, i, registered))
            },
            None => (None, EntrySource::File),
        };
        Some(
            ExportRequest {
                path,
                format,
                show_tools: state.tool_display.is_visible(),
                show_thinking: state.show_thinking,
                assistant_label: export_assistant_label(kind, &self.tool),
                source,
            },
        )
    }

    /// Tell how an export went.
    pub fn finish_export(&mut self, outcome: ExportOutcome, at: u64)
        requires
            old(self)@.wf(),
        ensures
            final(self)@ == old(self)@.telling(export_message(outcome), at),
            final(self)@.wf(),
    {
        self.tell(outcome.message(), at);
    }

    /// Tell how a copy to the clipboard went.
    pub fn finish_copy(&mut self, kind: CopyKind, result: Result<(), String>, at: u64)
        requires
            old(self)@.wf(),
        ensures
            final(self)@ == old(self)@.telling(copy_message(kind, result), at),
            final(self)@.wf(),
    {
        self.tell(copy_result_message(kind, &result), at);
    }

    /// Who deletes or resumes the conversation at `path`.
    pub fn dispatch(&self, path: &str, registered: &[ProviderKind]) -> (r: Dispatch)
        ensures
            r == self@.dispatch(path@, registered@),
            r matches Dispatch::Provider { conv_idx } ==> conv_idx < self@.conversations.len(),
    {
        match find_conversation(self.conversations.as_slice(), path) {
            Some(i) => {
                let kind: ProviderKind = self.conversations[i].provider;
                if is_registered(registered, kind) {
                    Dispatch::Provider { conv_idx: i }
                } else {
                    Dispatch::NoProvider { kind }
                }
            },
            None => Dispatch::Unknown,
        }
    }

    /// What a key does in the list before `handle_key` sees it.
    pub fn enter_step(&self, code: KeyCode) -> (r: EnterStep)
        ensures
            r == self@.enter_step(code),
    {
        let listing: bool = match &self.app_mode {
            AppMode::List => true,
            AppMode::View(_) => false,
        };
        if !(listing && self.dialog_mode == DialogMode::Closed && code == KeyCode::Enter
            && !self.is_loading()) {
            return EnterStep::Pass;
        }
        if self.view_mode == ListViewMode::Grouped {
            if self.is_selected_row_header() {
                EnterStep::ToggleGroup
            } else if self.selected_row.is_some() {
                EnterStep::OpenConversation
            } else {
                EnterStep::Pass
            }
        } else if self.selected.is_some() {
            EnterStep::OpenConversation
        } else {
            EnterStep::Pass
        }
    }

    pub fn is_selected_row_header(&self) -> (r: bool)
        ensures
            r == self@.header_selected(),
    {
        match self.selected_row {
            Some(s) => s < self.rows.len() && match self.rows[s] {
                Row::Header { .. } => true,
                Row::Conversation { .. } => false,
            },
            None => false,
        }
    }

    /// The width that the preview pane is rendered with, where it is shown.
    pub fn preview_width(&self, frame_width: usize) -> (r: Option<usize>)
        ensures
            r is Some <==> self@.preview_width(frame_width as nat) is Some,
            r matches Some(w) ==> self@.preview_width(frame_width as nat) == Some(w as nat),
    {
        let listing: bool = match &self.app_mode {
            AppMode::List => true,
            AppMode::View(_) => false,
        };
        if listing && self.view_mode == ListViewMode::Grouped && self.preview_visible
            && frame_width >= PREVIEW_MIN_WIDTH {
            Some(difference(frame_width / 2, 4))
        } else {
            None
        }
    }

    fn preview_key(&self, path: String, width: usize) -> (r: PreviewKey)
        ensures
            r@ == self@.preview_key_for(path@, width as nat),
    {
        PreviewKey {
            path,
            width,
            tool_display: self.tool_display,
            show_thinking: self.show_thinking,
        }
    }

    /// What the preview pane needs to show the selected row.
    pub fn plan_preview(&self, width: usize) -> (r: PreviewPlan)
        ensures
            r@ == self@.preview_plan(width as nat),
            r matches PreviewPlan::Group { group_idx } ==> group_idx < self@.groups.len(),
            r matches PreviewPlan::Conversation { conv_idx, .. } ==> conv_idx
                < self@.conversations.len(),
    {
        let Some(s) = self.selected_row else { return PreviewPlan::Nothing };
        if s >= self.rows.len() {
            return PreviewPlan::Nothing;
        }
        match self.rows[s] {
            Row::Header { group_idx } => {
                if group_idx < self.groups.len() {
                    PreviewPlan::Group { group_idx }
                } else {
                    PreviewPlan::Nothing
                }
            },
            Row::Conversation { conv_idx, .. } => {
                if conv_idx >= self.conversations.len() {
                    return PreviewPlan::Nothing;
                }
                let conv: &Conversation = &self.conversations[conv_idx];
                let current: bool = match &self.preview_cache {
                    Some((key, _)) => same_path(key.path.as_str(), conv.path.as_str())
                        && key.width == width && key.tool_display == self.tool_display
                        && key.show_thinking == self.show_thinking,
                    None => false,
                };
                if current {
                    return PreviewPlan::Current;
                }
                let (_, assistant_color, assistant_dim_color) = provider_theme(
                    conv.provider,
                    &self.tool,
                );
                PreviewPlan::Conversation {
                    conv_idx,
                    options: RenderOptions {
                        tool_display: self.tool_display,
                        show_thinking: self.show_thinking,
                        show_timing: false,
                        content_width: width,
                        assistant_label: provider_label(
                            conv.provider,
                            &self.tool,
                        ).to_owned(),
                        assistant_color,
                        assistant_dim_color,
                    },
                }
            },
        }
    }

    /// Put the preview lines that were built for the selected row in place. `lines` is what
    /// `plan_preview` asked for.
    pub fn ensure_preview(&mut self, width: usize, lines: Option<Vec<RenderedLine>>)
        requires
            old(self)@.wf(),
        ensures
            final(self)@ == old(self)@.preview_ensured(width as nat, lines),
            final(self)@.wf(),
    {
        let plan: PreviewPlan = self.plan_preview(width);
        let path: String = match plan {
            PreviewPlan::Nothing => {
                self.preview_cache = None;
                return;
            },
            PreviewPlan::Current => {
                return;
            },
            PreviewPlan::Group { group_idx } => concat(
                "__group__",
                decimal_text(group_idx as u64).as_str(),
            ),
            PreviewPlan::Conversation { conv_idx, .. } => self.conversations[conv_idx].path.clone(),
        };
        let key: PreviewKey = self.preview_key(path, width);
        self.preview_cache = match lines {
            Some(l) => Some((key, l)),
            None => None,
        };
    }

    // Getters for UI access

    pub fn loading_state(&self) -> (r: &LoadingState)
        ensures
            *r == self@.loading_state,
    {
        &self.loading_state
    }

    pub fn filtered(&self) -> (r: &[usize])
        ensures
            r@ == self@.filtered,
    {
        self.filtered.as_slice()
    }

    pub fn conversations(&self) -> (r: &[Conversation])
        ensures
            r@ == self@.conversations,
    {
        self.conversations.as_slice()
    }

    /// What the file system says of the project of each conversation.
    pub fn facts(&self) -> (r: &[ProjectFacts])
        ensures
            r@ == self@.facts,
    {
        self.facts.as_slice()
    }

    pub fn searchable(&self) -> (r: &[SearchableConversation])
        ensures
            r@ == self@.searchable,
    {
        self.searchable.as_slice()
    }

    pub fn selected(&self) -> (r: Option<usize>)
        ensures
            r == self@.selected,
    {
        self.selected
    }

    pub fn query(&self) -> (r: &str)
        ensures
            r@ == self@.query,
    {
        self.query.as_str()
    }

    pub fn query_words(&self) -> (r: &[String])
        ensures
            texts(r@) == self@.query_words,
    {
        self.query_words.as_slice()
    }

    pub fn use_relative_time(&self) -> (r: bool)
        ensures
            r == self@.use_relative_time,
    {
        self.use_relative_time
    }

    pub fn dialog_mode(&self) -> (r: &DialogMode)
        ensures
            *r == self@.dialog_mode,
    {
        &self.dialog_mode
    }

    pub fn app_mode(&self) -> (r: &AppMode)
        ensures
            self@.viewing == (match *r {
                AppMode::View(v) => Some(v@),
                AppMode::List => None,
            }),
    {
        &self.app_mode
    }

    pub fn status_message(&self) -> (r: Option<&(String, u64)>)
        ensures
            self@.status == (match r {
                Some(m) => Some((m.0@, m.1)),
                None => None,
            }),
    {
        match &self.status_message {
            Some(m) => Some(m),
            None => None,
        }
    }

    pub fn cursor_pos(&self) -> (r: usize)
        ensures
            r == self@.cursor_pos,
    {
        self.cursor_pos
    }

    pub fn is_single_file_mode(&self) -> (r: bool)
        ensures
            r == self@.single_file_mode,
    {
        self.single_file_mode
    }

    pub fn view_mode(&self) -> (r: ListViewMode)
        ensures
            r == self@.view_mode,
    {
        self.view_mode
    }

    pub fn groups(&self) -> (r: &[ProjectGroup])
        ensures
            r@ == self@.groups,
    {
        self.groups.as_slice()
    }

    pub fn rows(&self) -> (r: &[Row])
        ensures
            r@ == self@.rows,
    {
        self.rows.as_slice()
    }

    pub fn selected_row(&self) -> (r: Option<usize>)
        ensures
            r == self@.selected_row,
    {
        self.selected_row
    }

    pub fn preview_visible(&self) -> (r: bool)
        ensures
            r == self@.preview_visible,
    {
        self.preview_visible
    }

    pub fn pane_focus(&self) -> (r: PaneFocus)
        ensures
            r == self@.pane_focus,
    {
        self.pane_focus
    }

    pub fn preview_scroll(&self) -> (r: usize)
        ensures
            r == self@.preview_scroll,
    {
        self.preview_scroll
    }

    /// Whether the conversations of a group are shown below its header.
    pub fn is_group_expanded(&self, group_idx: usize) -> (r: bool)
        ensures
            r == (group_idx < self@.groups.len() && is_open(
                self@.groups[group_idx as int],
                self@.expanded,
                self@.query.len() > 0,
            )),
    {
        if group_idx >= self.groups.len() {
            return false;
        }
        let query_active: bool = self.query.as_str().unicode_len() > 0;
        match &self.groups[group_idx].canonical_path {
            Some(p) => self.expanded_groups.contains(p.as_str()) || query_active,
            None => query_active,
        }
    }
}

/// What a request says, where there is one.
pub open spec fn request_view(r: Option<RenderRequest>) -> Option<RenderRequestView> {
    match r {
        Some(q) => Some(q@),
        None => None,
    }
}

/// What a request says, where there is one.
pub open spec fn export_view(r: Option<ExportRequest>) -> Option<ExportRequestView> {
    match r {
        Some(q) => Some(q@),
        None => None,
    }
}

proof fn lemma_key_result_wf(
    s: AppView,
    t: AppView,
    code: KeyCode,
    modifiers: KeyModifiers,
    viewport_height: nat,
    at: u64,
)
    requires
        s.wf(),
        s.fits_machine(),
        t.fits_machine(),
        t == s.after_key(code, modifiers, viewport_height, at, t.groups).0,
        t.view_mode == ListViewMode::Grouped && s.view_mode == ListViewMode::Flat
            ==> t.groups_fit(),
    ensures
        t.wf(),
{
    if s.shows_groups(code, modifiers) {
        reveal(groups_fit);
    }
    law_keys_keep_the_invariant(s, code, modifiers, viewport_height, at, t.groups);
}

/// The search data without the conversation at `gone`.
fn remove_searchable(searchable: Vec<SearchableConversation>, gone: usize) -> (r: Vec<
    SearchableConversation,
>)
    ensures
        r@ == searchable_without(searchable@, gone),
{
    let ghost all = searchable@;
    let mut out: Vec<SearchableConversation> = Vec::new();
    for x in it: searchable
        invariant
            it.seq() == all,
            out@ == searchable_without(all.take(it.index() as int), gone),
    {
        assert(all.take(it.index() + 1).drop_last() =~= all.take(it.index() as int));
        let mut x: SearchableConversation = x;
        if x.index != gone {
            if x.index > gone {
                x.index = x.index - 1;  // Adjust index for removed item
            }
            out.push(x);
        }
    }
    assert(all.take(all.len() as int) =~= all);
    out
}

/// A list of indices without the item at `gone`.
fn remove_index(s: &Vec<usize>, gone: usize) -> (r: Vec<usize>)
    ensures
        r@ == indices_without(s@, gone),
{
    let mut out: Vec<usize> = Vec::new();
    for k in 0..s.len()
        invariant
            out@ == indices_without(s@.take(k as int), gone),
    {
        assert(s@.take(k + 1).drop_last() =~= s@.take(k as int));
        if s[k] != gone {
            if s[k] > gone {
                out.push(s[k] - 1);
            } else {
                out.push(s[k]);
            }
        }
    }
    assert(s@.take(s@.len() as int) =~= s@);
    out
}

proof fn lemma_indices_without(s: Seq<usize>, gone: usize, n: nat)
    requires
        s.no_duplicates(),
        forall|k: int| 0 <= k < s.len() ==> #[trigger] s[k] < n,
        gone < n,
    ensures
        indices_without(s, gone).no_duplicates(),
        forall|k: int|
            0 <= k < indices_without(s, gone).len() ==> #[trigger] indices_without(s, gone)[k] < n
                - 1,
        forall|k: int|
            0 <= k < indices_without(s, gone).len() ==> exists|j: int|
                0 <= j < s.len() && s[j] != gone && #[trigger] index_without(s[j], gone)
                    == #[trigger] indices_without(s, gone)[k],
        indices_without(s, gone).len() <= s.len(),
    decreases s.len(),
{
    if s.len() > 0 {
        let front = s.drop_last();
        let rest = indices_without(front, gone);
        let all = indices_without(s, gone);
        assert(front.no_duplicates()) by {
            assert forall|i: int, j: int| 0 <= i < front.len() && 0 <= j < front.len() && i
                != j implies front[i] != front[j] by {
                assert(s[i] != s[j]);
            }
        }
        assert forall|k: int| 0 <= k < front.len() implies #[trigger] front[k] < n by {
            assert(s[k] < n);
        }
        lemma_indices_without(front, gone, n);
        assert(s[s.len() - 1] < n);
        assert forall|k: int| 0 <= k < all.len() implies exists|j: int|
            0 <= j < s.len() && s[j] != gone && #[trigger] index_without(s[j], gone)
                == #[trigger] all[k] by {
            if k < rest.len() {
                assert(all[k] == rest[k]);
                let j = choose|j: int|
                    0 <= j < front.len() && front[j] != gone && #[trigger] index_without(
                        front[j],
                        gone,
                    ) == rest[k];
                assert(index_without(s[j], gone) == all[k]);
            } else {
                assert(index_without(s[s.len() - 1], gone) == all[k]);
            }
        }
        assert forall|a: int, b: int| 0 <= a < all.len() && 0 <= b < all.len() && a != b implies all[a]
            != all[b] by {
            let hi = if a < b {
                b
            } else {
                a
            };
            let lo = if a < b {
                a
            } else {
                b
            };
            if hi == rest.len() {
                let j = choose|j: int|
                    0 <= j < front.len() && front[j] != gone && #[trigger] index_without(
                        front[j],
                        gone,
                    ) == rest[lo];
                assert(s[j] != s[s.len() - 1]);
            } else {
                assert(rest[lo] != rest[hi]);
            }
        }
    }
}

/// The selected conversation is one of the list.
pub proof fn law_selected_conversation_is_listed(s: AppView)
    requires
        s.wf(),
    ensures
        s.selected_conversation() matches Some(i) ==> i < s.conversations.len(),
{
    reveal(list_fits);
    reveal(groups_fit);
    reveal(is_grouping);
    if s.view_mode == ListViewMode::Grouped && s.selected_row_conversation() is Some {
        let row = s.rows[s.selected_row->0 as int];
        let g = match row {
            Row::Header { group_idx } => group_idx,
            Row::Conversation { group_idx, .. } => group_idx,
        };
        assert(row_fits(row, s.groups));
        let group = s.groups[g as int];
        assert(is_group(s.conversations, s.facts, group, first_of(s.conversations, s.facts, group)));
        let v = group.conversation_indices@;
        if let Row::Conversation { conv_idx, .. } = row {
            let k = choose|k: int| 0 <= k < v.len() && v[k] == conv_idx;
            assert(v[k] < s.conversations.len());
        }
    }
}

} // verus!
