//! What the dashboard holds, and what each of its steps makes of it.

use crate::history::grouping::{is_grouping, ProjectFacts, ProjectGroup};
use crate::history::recency::{numbered, recency_order};
use crate::history::{all_wf, Conversation, ToolName};
use crate::order::rearranged;
use crate::paths::PathId;
use crate::text::words;
use crate::tui::keys::{DialogMode, ListViewMode, LoadingState, PaneFocus, EXPORT_OPTION_COUNT};
use crate::tui::lines::RenderedLine;
use crate::tui::rows::{group_id, row_fits, rows_of, Row};
use crate::tui::view_state::{least, minus, ToolDisplayMode, ViewStateView};
use vstd::prelude::*;

verus! {

/// A conversation as searches see it.
#[derive(Debug)]
pub struct SearchableConversation {
    /// The position of the conversation in the list.
    pub index: usize,
    /// The text in the form that searches look through.
    pub text_lower: String,
    /// Where the part of that text that tells the topic ends.
    pub topic_end: usize,
}

/// What the preview pane was rendered for.
pub struct PreviewKeyView {
    pub path: PathId,
    pub width: nat,
    pub tool_display: ToolDisplayMode,
    pub show_thinking: bool,
}

/// What the dashboard holds.
#[verifier::ext_equal]
pub struct AppView {
    pub tool: ToolName,
    /// All loaded conversations.
    pub conversations: Seq<Conversation>,
    /// What the file system says of the project of each conversation.
    pub facts: Seq<ProjectFacts>,
    pub searchable: Seq<SearchableConversation>,
    /// Indices into `conversations`, in the order they are listed in.
    pub filtered: Seq<usize>,
    /// Selected index into `filtered`.
    pub selected: Option<usize>,
    pub query: Seq<char>,
    pub query_words: Seq<Seq<char>>,
    pub cursor_pos: nat,
    pub use_relative_time: bool,
    pub loading_state: LoadingState,
    pub dialog_mode: DialogMode,
    /// The viewer, where a conversation is being read.
    pub viewing: Option<ViewStateView>,
    /// The status message, and the time it was set at.
    pub status: Option<(Seq<char>, u64)>,
    pub tool_display: ToolDisplayMode,
    pub show_thinking: bool,
    pub show_timing: bool,
    pub single_file_mode: bool,
    /// The query that `filtered` was found for.
    pub previous_query: Seq<char>,
    pub show_deleted_projects: bool,
    pub view_mode: ListViewMode,
    pub groups: Seq<ProjectGroup>,
    /// The paths of the groups that are expanded.
    pub expanded: Set<PathId>,
    pub rows: Seq<Row>,
    /// Selected index into `rows`.
    pub selected_row: Option<usize>,
    pub preview_visible: bool,
    pub pane_focus: PaneFocus,
    pub preview_scroll: nat,
    pub preview_viewport_height: nat,
    /// The lines of the preview pane, and what they were rendered for.
    pub preview: Option<(PreviewKeyView, Seq<RenderedLine>)>,
}

/// The numbers below `n`, in order.
pub open spec fn first_indices(n: nat) -> Seq<usize> {
    Seq::new(n, |i: int| i as usize)
}

/// Whether a conversation is listed: always, unless its project directory is gone.
pub open spec fn project_is_there(c: Conversation, f: ProjectFacts) -> bool {
    c.project_path is Some ==> f.exists
}

/// The indices among the first `n` of the conversations whose project is still there.
pub open spec fn present_among(convs: Seq<Conversation>, facts: Seq<ProjectFacts>, n: nat) -> Seq<
    usize,
>
    decreases n,
{
    if n == 0 {
        Seq::empty()
    } else {
        let rest = present_among(convs, facts, (n - 1) as nat);
        if project_is_there(convs[n - 1], facts[n - 1]) {
            rest.push((n - 1) as usize)
        } else {
            rest
        }
    }
}

/// The indices of the conversations that are taken over into the list.
pub open spec fn admitted(
    convs: Seq<Conversation>,
    facts: Seq<ProjectFacts>,
    show_deleted_projects: bool,
) -> Seq<usize> {
    if show_deleted_projects {
        first_indices(convs.len())
    } else {
        present_among(convs, facts, convs.len())
    }
}

/// A list of distinct numbers below `n` has at most `n` items.
pub proof fn lemma_distinct_len(s: Seq<usize>, n: nat)
    requires
        s.no_duplicates(),
        forall|k: int| 0 <= k < s.len() ==> #[trigger] s[k] < n,
    ensures
        s.len() <= n,
    decreases n,
{
    if n == 0 {
        if s.len() > 0 {
            assert(s[0] < n);
        }
    } else if exists|k: int| 0 <= k < s.len() && #[trigger] s[k] == n - 1 {
        let k = choose|k: int| 0 <= k < s.len() && #[trigger] s[k] == n - 1;
        let t = s.remove(k);
        assert forall|i: int| 0 <= i < t.len() implies #[trigger] t[i] < n - 1 by {
            let j = if i < k {
                i
            } else {
                i + 1
            };
            assert(t[i] == s[j]);
            assert(s[j] != s[k]);
        }
        assert forall|i: int, j: int| 0 <= i < t.len() && 0 <= j < t.len() && i != j implies t[i]
            != t[j] by {
            let a = if i < k {
                i
            } else {
                i + 1
            };
            let b = if j < k {
                j
            } else {
                j + 1
            };
            assert(s[a] != s[b]);
        }
        lemma_distinct_len(t, (n - 1) as nat);
    } else {
        lemma_distinct_len(s, (n - 1) as nat);
    }
}

/// An index after the item at `gone` was taken out.
pub open spec fn index_without(i: usize, gone: usize) -> usize {
    if i > gone {
        (i - 1) as usize
    } else {
        i
    }
}

/// A list of indices after the item at `gone` was taken out.
pub open spec fn indices_without(s: Seq<usize>, gone: usize) -> Seq<usize>
    decreases s.len(),
{
    if s.len() == 0 {
        Seq::empty()
    } else {
        let rest = indices_without(s.drop_last(), gone);
        if s.last() == gone {
            rest
        } else {
            rest.push(index_without(s.last(), gone))
        }
    }
}

/// The search data after the conversation at `gone` was taken out.
pub open spec fn searchable_without(
    s: Seq<SearchableConversation>,
    gone: usize,
) -> Seq<SearchableConversation>
    decreases s.len(),
{
    if s.len() == 0 {
        Seq::empty()
    } else {
        let rest = searchable_without(s.drop_last(), gone);
        if s.last().index == gone {
            rest
        } else {
            rest.push(
                SearchableConversation { index: index_without(s.last().index, gone), ..s.last() },
            )
        }
    }
}

/// The selection after the list came to have `len` items: kept where it can be, else the last.
pub open spec fn kept_selection(selected: Option<usize>, len: nat) -> Option<usize> {
    if len == 0 {
        None
    } else {
        match selected {
            Some(s) => if s < len {
                Some(s)
            } else {
                Some((len - 1) as usize)
            },
            None => None,
        }
    }
}

/// The selection after the rows were rebuilt: kept where it can be, else the first.
pub open spec fn clamped_row(selected: Option<usize>, len: nat) -> Option<usize> {
    match selected {
        Some(s) => if s < len {
            Some(s)
        } else if len > 0 {
            Some(0)
        } else {
            None
        },
        None => if len > 0 {
            Some(0)
        } else {
            None
        },
    }
}

/// The first of `len` items.
pub open spec fn first_item(len: nat) -> Option<usize> {
    if len == 0 {
        None
    } else {
        Some(0)
    }
}

/// A selection moved up by `amount`.
pub open spec fn moved_up(selected: Option<usize>, amount: nat) -> Option<usize> {
    match selected {
        Some(s) => Some(minus(s as nat, amount) as usize),
        None => None,
    }
}

/// A selection among `len` items moved down by `amount`.
pub open spec fn moved_down(selected: Option<usize>, amount: nat, len: nat) -> Option<usize> {
    match selected {
        Some(s) => Some(least(s as nat + amount, minus(len, 1)) as usize),
        None => None,
    }
}

/// Where the `n`-th header stands among the rows from `from` on.
pub open spec fn nth_header(rows: Seq<Row>, n: nat, from: nat) -> Option<usize>
    decreases rows.len() - from,
{
    if from >= rows.len() || n == 0 {
        None
    } else if rows[from as int] is Header {
        if n == 1 {
            Some(from as usize)
        } else {
            nth_header(rows, (n - 1) as nat, from + 1)
        }
    } else {
        nth_header(rows, n, from + 1)
    }
}

/// Where the word before `pos` starts: the separators left of `pos` are skipped first, then
/// everything up to the next separator.
pub open spec fn skip_separators(separators: Seq<bool>, pos: nat) -> nat
    decreases pos,
{
    if pos > 0 && separators[pos - 1] {
        skip_separators(separators, (pos - 1) as nat)
    } else {
        pos
    }
}

pub open spec fn skip_word(separators: Seq<bool>, pos: nat) -> nat
    decreases pos,
{
    if pos > 0 && !separators[pos - 1] {
        skip_word(separators, (pos - 1) as nat)
    } else {
        pos
    }
}

pub open spec fn word_start(separators: Seq<bool>, pos: nat) -> nat {
    skip_word(separators, skip_separators(separators, pos))
}

/// The paths of all groups that have one.
pub open spec fn group_paths(groups: Seq<ProjectGroup>) -> Set<PathId> {
    Set::new(
        |id: PathId|
            exists|g: int| 0 <= g < groups.len() && group_id(#[trigger] groups[g]) == Some(id),
    )
}

/// The digit that a key jumps to a group by.
pub open spec fn group_number(c: char) -> nat {
    if '1' <= c && c <= '9' {
        (c as u32 - '0' as u32) as nat
    } else {
        0
    }
}

/// Whether the conversations and what is known of their projects go together, every listed
/// index names a conversation and is listed once, and the selection is one of the listed ones.
#[verifier::opaque]
pub open spec fn list_fits(
    conversations: Seq<Conversation>,
    facts: Seq<ProjectFacts>,
    filtered: Seq<usize>,
    selected: Option<usize>,
) -> bool {
    &&& facts.len() == conversations.len()
    &&& all_wf(conversations)
    &&& forall|k: int| 0 <= k < filtered.len() ==> #[trigger] filtered[k] < conversations.len()
    &&& filtered.no_duplicates()
    &&& selected is Some <==> filtered.len() > 0
    &&& selected matches Some(s) ==> s < filtered.len()
}

/// Whether the groups are those of the conversations, the rows are rows of them, and the
/// selection is one of the rows.
#[verifier::opaque]
pub open spec fn groups_fit(
    conversations: Seq<Conversation>,
    facts: Seq<ProjectFacts>,
    groups: Seq<ProjectGroup>,
    rows: Seq<Row>,
    selected_row: Option<usize>,
) -> bool {
    &&& is_grouping(conversations, facts, groups)
    &&& forall|i: int| 0 <= i < rows.len() ==> row_fits(#[trigger] rows[i], groups)
    &&& selected_row is Some <==> rows.len() > 0
    &&& selected_row matches Some(s) ==> s < rows.len()
}

impl AppView {
    pub open spec fn list_fits(self) -> bool {
        list_fits(self.conversations, self.facts, self.filtered, self.selected)
    }

    pub open spec fn groups_fit(self) -> bool {
        groups_fit(
            self.conversations,
            self.facts,
            self.groups,
            self.rows,
            self.selected_row,
        )
    }

    pub open spec fn is_loading(self) -> bool {
        self.loading_state is Loading
    }

    /// What every step keeps.
    pub open spec fn wf(self) -> bool {
        &&& self.list_fits()
        &&& self.cursor_pos <= self.query.len()
        &&& self.view_mode == ListViewMode::Grouped ==> self.groups_fit()
        &&& self.viewing matches Some(v) ==> v.wf()
        &&& self.pane_focus == PaneFocus::Preview ==> self.preview_visible
        &&& match self.dialog_mode {
            DialogMode::ExportMenu { selected } => selected < EXPORT_OPTION_COUNT,
            DialogMode::YankMenu { selected } => selected < EXPORT_OPTION_COUNT,
            _ => true,
        }
    }

    /// Whether the lists are short enough for a machine to hold them.
    pub open spec fn fits_machine(self) -> bool {
        &&& self.conversations.len() <= usize::MAX
        &&& self.filtered.len() <= usize::MAX
        &&& self.groups.len() <= usize::MAX
        &&& self.rows.len() <= usize::MAX
    }

    /// A dashboard with nothing in it.
    pub open spec fn empty(
        tool: ToolName,
        use_relative_time: bool,
        tool_display: ToolDisplayMode,
        show_thinking: bool,
        show_deleted_projects: bool,
    ) -> AppView {
        AppView {
            tool,
            conversations: Seq::empty(),
            facts: Seq::empty(),
            searchable: Seq::empty(),
            filtered: Seq::empty(),
            selected: None,
            query: Seq::empty(),
            query_words: Seq::empty(),
            cursor_pos: 0,
            use_relative_time,
            loading_state: LoadingState::Loading { loaded: 0 },
            dialog_mode: DialogMode::Closed,
            viewing: None,
            status: None,
            tool_display,
            show_thinking,
            show_timing: false,
            single_file_mode: false,
            previous_query: Seq::empty(),
            show_deleted_projects,
            view_mode: ListViewMode::Grouped,
            groups: Seq::empty(),
            expanded: Set::empty(),
            rows: Seq::empty(),
            selected_row: None,
            preview_visible: true,
            pane_focus: PaneFocus::List,
            preview_scroll: 0,
            preview_viewport_height: 0,
            preview: None,
        }
    }

    // Lists and groups

    /// The rows rebuilt from the groups, the filter and the expanded groups.
    pub open spec fn rows_rebuilt(self) -> AppView {
        let rows = rows_of(self.groups, self.expanded, self.query.len() > 0, self.filtered);
        AppView { rows, selected_row: clamped_row(self.selected_row, rows.len()), ..self }
    }

    /// Where no group was expanded yet, the first one is, so that the user sees content.
    pub open spec fn seeded(self) -> AppView {
        if self.expanded == Set::<PathId>::empty() && self.groups.len() > 0 && group_id(
            self.groups[0],
        ) is Some {
            AppView { expanded: self.expanded.insert(group_id(self.groups[0])->0), ..self }
        } else {
            self
        }
    }

    /// The groups replaced.
    pub open spec fn regrouped(self, groups: Seq<ProjectGroup>) -> AppView {
        AppView { groups, ..self }.seeded().rows_rebuilt()
    }

    /// The groups replaced where they are shown.
    pub open spec fn regrouped_if_shown(self, groups: Seq<ProjectGroup>) -> AppView {
        if self.view_mode == ListViewMode::Grouped {
            self.regrouped(groups)
        } else {
            self
        }
    }

    /// A dashboard with all conversations loaded.
    pub open spec fn ready(
        tool: ToolName,
        convs: Seq<Conversation>,
        facts: Seq<ProjectFacts>,
        use_relative_time: bool,
        tool_display: ToolDisplayMode,
        show_thinking: bool,
        show_deleted_projects: bool,
        groups: Seq<ProjectGroup>,
    ) -> AppView {
        let kept = admitted(convs, facts, show_deleted_projects);
        AppView {
            conversations: rearranged(convs, kept),
            facts: rearranged(facts, kept),
            filtered: first_indices(kept.len()),
            selected: first_item(kept.len()),
            loading_state: LoadingState::Ready,
            ..AppView::empty(
                tool,
                use_relative_time,
                tool_display,
                show_thinking,
                show_deleted_projects,
            )
        }.regrouped(groups)
    }

    /// A dashboard that shows one file, with the conversation in it where it could be read.
    pub open spec fn single_file(
        tool: ToolName,
        path: Seq<char>,
        convs: Seq<Conversation>,
        facts: Seq<ProjectFacts>,
        use_relative_time: bool,
        tool_display: ToolDisplayMode,
        show_thinking: bool,
    ) -> AppView {
        AppView {
            conversations: convs,
            facts,
            filtered: first_indices(convs.len()),
            selected: first_item(convs.len()),
            loading_state: LoadingState::Ready,
            viewing: Some(
                ViewStateView::opened(
                    path,
                    Seq::empty(),
                    Seq::empty(),
                    tool_display,
                    show_thinking,
                    false,
                    0,
                ),
            ),
            single_file_mode: true,
            view_mode: ListViewMode::Flat,
            preview_visible: false,
            ..AppView::empty(tool, use_relative_time, tool_display, show_thinking, true)
        }
    }

    /// More conversations at the end of the list, all of them listed.
    pub open spec fn extended(self, convs: Seq<Conversation>, facts: Seq<ProjectFacts>) -> AppView {
        let conversations = self.conversations + convs;
        AppView {
            conversations,
            facts: self.facts + facts,
            filtered: first_indices(conversations.len()),
            selected: if self.selected is None {
                first_item(conversations.len())
            } else {
                self.selected
            },
            loading_state: LoadingState::Loading { loaded: conversations.len() as usize },
            ..self
        }
    }

    /// A batch of conversations that came in while loading.
    pub open spec fn appended(
        self,
        convs: Seq<Conversation>,
        facts: Seq<ProjectFacts>,
        groups: Seq<ProjectGroup>,
    ) -> AppView {
        let kept = admitted(convs, facts, self.show_deleted_projects);
        self.extended(rearranged(convs, kept), rearranged(facts, kept)).regrouped_if_shown(groups)
    }

    /// The conversations newest first, and loading over. Without a query all are listed; with
    /// one, its search is still to come.
    pub open spec fn sorted(self) -> AppView {
        let order = recency_order(self.conversations);
        let count = self.conversations.len();
        let sorted = AppView {
            conversations: numbered(rearranged(self.conversations, order)),
            facts: rearranged(self.facts, order),
            loading_state: LoadingState::Ready,
            ..self
        };
        if self.query.len() == 0 {
            AppView { filtered: first_indices(count), selected: first_item(count), ..sorted }
        } else {
            sorted
        }
    }

    /// The end of loading.
    pub open spec fn loaded(self, groups: Seq<ProjectGroup>) -> AppView {
        self.sorted().regrouped_if_shown(groups)
    }

    pub open spec fn words_refreshed(self, normalized: Seq<char>) -> AppView {
        AppView { query_words: words(normalized), ..self }
    }

    /// The results of a search for the query.
    pub open spec fn filter_updated(self, results: Seq<usize>, normalized: Seq<char>) -> AppView {
        let found = AppView {
            filtered: results,
            previous_query: self.query,
            selected: first_item(results.len()),
            ..self
        }.words_refreshed(normalized);
        if self.view_mode == ListViewMode::Grouped {
            let shown = found.rows_rebuilt();
            AppView { selected_row: first_item(shown.rows.len()), ..shown }
        } else {
            found
        }
    }

    /// The group of the selected row.
    pub open spec fn selected_group(self) -> Option<usize> {
        match self.selected_row {
            Some(s) => if s < self.rows.len() {
                Some(
                    match self.rows[s as int] {
                        Row::Header { group_idx } => group_idx,
                        Row::Conversation { group_idx, .. } => group_idx,
                    },
                )
            } else {
                None
            },
            None => None,
        }
    }

    /// The group of the selected row expanded, or collapsed where it was expanded. A group
    /// without a path stays as it is.
    pub open spec fn group_toggled(self) -> AppView {
        match self.selected_group() {
            Some(g) => if g < self.groups.len() {
                match group_id(self.groups[g as int]) {
                    Some(id) => AppView {
                        expanded: if self.expanded.contains(id) {
                            self.expanded.remove(id)
                        } else {
                            self.expanded.insert(id)
                        },
                        ..self
                    }.rows_rebuilt(),
                    None => self,
                }
            } else {
                self
            },
            None => self,
        }
    }

    pub open spec fn all_expanded(self) -> AppView {
        AppView { expanded: self.expanded.union(group_paths(self.groups)), ..self }.rows_rebuilt()
    }

    pub open spec fn all_collapsed(self) -> AppView {
        AppView { expanded: Set::empty(), ..self }.rows_rebuilt()
    }

    pub open spec fn view_toggled(self, groups: Seq<ProjectGroup>) -> AppView {
        match self.view_mode {
            ListViewMode::Grouped => AppView { view_mode: ListViewMode::Flat, ..self },
            ListViewMode::Flat => AppView { view_mode: ListViewMode::Grouped, ..self }.regrouped(
                groups,
            ),
        }
    }

    // Selection

    /// Another row selected; the preview starts at its top.
    pub open spec fn row_selected(self, row: Option<usize>) -> AppView {
        AppView { selected_row: row, preview_scroll: 0, ..self }
    }

    pub open spec fn jumped_to_group(self, n: nat) -> AppView {
        match nth_header(self.rows, n, 0) {
            Some(i) => self.row_selected(Some(i)),
            None => self,
        }
    }

    /// The selection one item up, in the list that is shown.
    pub open spec fn selected_prev(self) -> AppView {
        if self.view_mode == ListViewMode::Grouped {
            if self.selected_row matches Some(s) && s > 0 {
                self.row_selected(moved_up(self.selected_row, 1))
            } else {
                self
            }
        } else {
            self.flat_up(1)
        }
    }

    /// The selection one item down, in the list that is shown.
    pub open spec fn selected_next(self) -> AppView {
        if self.view_mode == ListViewMode::Grouped {
            if self.selected_row matches Some(s) && s + 1 < self.rows.len() {
                self.row_selected(moved_down(self.selected_row, 1, self.rows.len()))
            } else {
                self
            }
        } else {
            self.flat_down(1)
        }
    }

    pub open spec fn flat_up(self, amount: nat) -> AppView {
        AppView { selected: moved_up(self.selected, amount), ..self }
    }

    pub open spec fn flat_down(self, amount: nat) -> AppView {
        AppView { selected: moved_down(self.selected, amount, self.filtered.len()), ..self }
    }

    /// The selection `amount` items up, in the list that is shown.
    pub open spec fn selected_up(self, amount: nat) -> AppView {
        if self.view_mode == ListViewMode::Grouped {
            if self.selected_row is Some {
                self.row_selected(moved_up(self.selected_row, amount))
            } else {
                self
            }
        } else {
            self.flat_up(amount)
        }
    }

    /// The selection `amount` items down, in the list that is shown.
    pub open spec fn selected_down(self, amount: nat) -> AppView {
        if self.view_mode == ListViewMode::Grouped {
            if self.selected_row is Some {
                self.row_selected(moved_down(self.selected_row, amount, self.rows.len()))
            } else {
                self
            }
        } else {
            self.flat_down(amount)
        }
    }

    pub open spec fn selected_first(self) -> AppView {
        if self.view_mode == ListViewMode::Grouped {
            if self.rows.len() > 0 {
                self.row_selected(Some(0))
            } else {
                self
            }
        } else {
            AppView { selected: first_item(self.filtered.len()), ..self }
        }
    }

    pub open spec fn selected_last(self) -> AppView {
        if self.view_mode == ListViewMode::Grouped {
            if self.rows.len() > 0 {
                self.row_selected(Some((self.rows.len() - 1) as usize))
            } else {
                self
            }
        } else {
            AppView {
                selected: if self.filtered.len() > 0 {
                    Some((self.filtered.len() - 1) as usize)
                } else {
                    None
                },
                ..self
            }
        }
    }

    /// The selected conversation. On the header of a group it is the group's most recent one.
    pub open spec fn selected_conversation(self) -> Option<usize> {
        if self.view_mode == ListViewMode::Grouped {
            self.selected_row_conversation()
        } else {
            match self.selected {
                Some(s) => if s < self.filtered.len() {
                    Some(self.filtered[s as int])
                } else {
                    None
                },
                None => None,
            }
        }
    }

    pub open spec fn selected_row_conversation(self) -> Option<usize> {
        match self.selected_row {
            Some(s) => if s < self.rows.len() {
                match self.rows[s as int] {
                    Row::Conversation { conv_idx, .. } => Some(conv_idx),
                    Row::Header { group_idx } => if group_idx < self.groups.len()
                        && self.groups[group_idx as int].conversation_indices@.len() > 0 {
                        Some(self.groups[group_idx as int].conversation_indices@[0])
                    } else {
                        None
                    },
                }
            } else {
                None
            },
            None => None,
        }
    }

    pub open spec fn selected_path(self) -> Option<Seq<char>> {
        match self.selected_conversation() {
            Some(i) => Some(self.conversations[i as int].path@),
            None => None,
        }
    }

    /// The conversation at `gone` taken out of the list; the selection stays at its position
    /// where it can, else it moves to the last item.
    pub open spec fn taken_out(self, gone: usize) -> AppView {
        let filtered = indices_without(self.filtered, gone);
        AppView {
            conversations: self.conversations.remove(gone as int),
            facts: self.facts.remove(gone as int),
            searchable: searchable_without(self.searchable, gone),
            filtered,
            selected: kept_selection(self.selected, filtered.len()),
            ..self
        }
    }

    /// The selected conversation taken out of the list.
    pub open spec fn selected_removed(self, groups: Seq<ProjectGroup>) -> AppView {
        match self.selected_conversation() {
            Some(gone) => self.taken_out(gone).regrouped_if_shown(groups),
            None => self,
        }
    }

    // The preview pane

    pub open spec fn preview_lines(self) -> Seq<RenderedLine> {
        match self.preview {
            Some((_, lines)) => lines,
            None => Seq::empty(),
        }
    }

    pub open spec fn preview_toggled(self) -> AppView {
        AppView {
            preview_visible: !self.preview_visible,
            pane_focus: if self.preview_visible {
                PaneFocus::List
            } else {
                self.pane_focus
            },
            ..self
        }
    }

    pub open spec fn preview_focused(self) -> AppView {
        if self.preview_visible {
            AppView { pane_focus: PaneFocus::Preview, ..self }
        } else {
            self
        }
    }

    pub open spec fn list_focused(self) -> AppView {
        AppView { pane_focus: PaneFocus::List, ..self }
    }

    /// The last scroll position at which the preview pane is full.
    pub open spec fn preview_max_scroll(self) -> nat {
        minus(self.preview_lines().len(), self.preview_viewport_height)
    }

    pub open spec fn preview_down(self, amount: nat) -> AppView {
        AppView {
            preview_scroll: least(self.preview_scroll + amount, self.preview_max_scroll()),
            ..self
        }
    }

    pub open spec fn preview_up(self, amount: nat) -> AppView {
        AppView { preview_scroll: minus(self.preview_scroll, amount), ..self }
    }

    /// The height of the preview pane, at least one line.
    pub open spec fn preview_page(self) -> nat {
        if self.preview_viewport_height == 0 {
            1
        } else {
            self.preview_viewport_height
        }
    }

    // The query

    pub open spec fn cursor_left(self) -> AppView {
        AppView { cursor_pos: minus(self.cursor_pos, 1), ..self }
    }

    pub open spec fn cursor_right(self) -> AppView {
        AppView { cursor_pos: least(self.cursor_pos + 1, self.query.len()), ..self }
    }

    pub open spec fn query_char_typed(self, c: char) -> AppView {
        AppView {
            query: self.query.insert(self.cursor_pos as int, c),
            cursor_pos: self.cursor_pos + 1,
            ..self
        }
    }

    /// The character before the cursor taken out.
    pub open spec fn query_char_erased(self) -> AppView {
        if self.cursor_pos > 0 {
            AppView {
                query: self.query.remove(self.cursor_pos - 1),
                cursor_pos: (self.cursor_pos - 1) as nat,
                ..self
            }
        } else {
            self
        }
    }

    /// The character at the cursor taken out.
    pub open spec fn query_char_deleted(self) -> AppView {
        if self.cursor_pos < self.query.len() {
            AppView { query: self.query.remove(self.cursor_pos as int), ..self }
        } else {
            self
        }
    }

    /// The word before the cursor taken out.
    pub open spec fn word_deleted(self, separators: Seq<bool>) -> AppView {
        let start = word_start(separators, self.cursor_pos);
        AppView {
            query: self.query.take(start as int) + self.query.skip(self.cursor_pos as int),
            cursor_pos: start,
            ..self
        }
    }

    // Dialogs, the viewer and the status line

    pub open spec fn dialog(self, mode: DialogMode) -> AppView {
        AppView { dialog_mode: mode, ..self }
    }

    pub open spec fn reading(self, viewing: ViewStateView) -> AppView {
        AppView { viewing: Some(viewing), ..self }
    }

    pub open spec fn back_to_list(self) -> AppView {
        AppView { viewing: None, ..self }
    }

    pub open spec fn telling(self, message: Seq<char>, at: u64) -> AppView {
        AppView { status: Some((message, at)), ..self }
    }
}

} // verus!
