//! What the lists of the dashboard hold after each step.

use crate::history::grouping::{ProjectFacts, ProjectGroup};
use crate::history::recency::{law_newest_first_is_the_same_conversations, recency_order};
use crate::history::{Conversation, ToolName};
use crate::order::rearranged;
use crate::paths::{path_id, PathId};
use crate::text::words;
use crate::tui::key_laws::{is_shown_selected, law_selection_is_what_is_shown, list_has_keys};
use crate::tui::keys::{
    DialogMode, KeyCode, KeyModifiers, ListViewMode, LoadingState, PaneFocus,
};
use crate::tui::model::{
    admitted, indices_without, list_fits, nth_header, present_among, searchable_without, AppView,
    SearchableConversation,
};
use crate::tui::rows::{
    group_rows, law_query_shows_what_passed_the_filter, rows_among, rows_of, Row,
};
use crate::tui::view_state::{ToolDisplayMode, ViewSearchMode};
use vstd::prelude::*;

verus! {

/// What a search finds is what is listed, in the order it was found; the first of it is selected,
/// and nothing where nothing was found. The conversations, the query and the view stay as they
/// are.
pub proof fn law_search_results_are_what_is_listed(
    s: AppView,
    results: Seq<usize>,
    normalized: Seq<char>,
    g: usize,
    c: usize,
)
    requires
        g < s.groups.len() <= usize::MAX,
    ensures
        ({
            let t = s.filter_updated(results, normalized);
            &&& t.filtered == results
            &&& t.previous_query == s.query
            &&& t.query_words == words(normalized)
            &&& results.len() > 0 ==> t.selected == Some(0usize)
            &&& results.len() == 0 ==> t.selected is None
            &&& t.conversations == s.conversations && t.facts == s.facts && t.query == s.query
            &&& t.cursor_pos == s.cursor_pos && t.view_mode == s.view_mode && t.groups == s.groups
            &&& s.view_mode == ListViewMode::Flat && results.len() > 0 ==> t.selected_path()
                == Some(s.conversations[results[0] as int].path@)
            &&& s.view_mode == ListViewMode::Grouped && s.query.len() > 0 ==> (t.rows.contains(
                Row::Conversation { group_idx: g, conv_idx: c },
            ) <==> s.groups[g as int].conversation_indices@.contains(c) && results.contains(c))
            &&& s.view_mode == ListViewMode::Grouped && t.rows.len() > 0 ==> t.selected_row
                == Some(0usize)
            &&& s.view_mode == ListViewMode::Grouped && t.rows.len() == 0 ==> t.selected_row
                is None
        }),
{
    law_query_shows_what_passed_the_filter(s.groups, s.expanded, results, g, c);
}

/// Whether a conversation is taken over into the list: always where those of deleted projects are
/// asked for, else unless its project is gone.
pub open spec fn is_wanted(c: Conversation, f: ProjectFacts, show_deleted_projects: bool) -> bool {
    show_deleted_projects || c.project_path is None || f.exists
}

proof fn lemma_present_among(convs: Seq<Conversation>, facts: Seq<ProjectFacts>, n: nat)
    requires
        n <= convs.len() <= usize::MAX,
    ensures
        ({
            let kept = present_among(convs, facts, n);
            &&& forall|k: int| 0 <= k < kept.len() ==> (#[trigger] kept[k]) < n
            &&& forall|k: int, l: int|
                0 <= k < l < kept.len() ==> (#[trigger] kept[k]) < (#[trigger] kept[l])
            &&& forall|i: usize|
                i < n ==> (#[trigger] kept.contains(i) <==> is_wanted(
                    convs[i as int],
                    facts[i as int],
                    false,
                ))
        }),
    decreases n,
{
    if n > 0 {
        lemma_present_among(convs, facts, (n - 1) as nat);
        let rest = present_among(convs, facts, (n - 1) as nat);
        let kept = present_among(convs, facts, n);
        assert forall|i: usize| i < n implies (#[trigger] kept.contains(i) <==> is_wanted(
            convs[i as int],
            facts[i as int],
            false,
        )) by {
            if rest.contains(i) {
                let k = choose|k: int| 0 <= k < rest.len() && rest[k] == i;
                assert(kept[k] == i);
            }
            if kept.contains(i) {
                let k = choose|k: int| 0 <= k < kept.len() && kept[k] == i;
                if k < rest.len() {
                    assert(rest[k] == i);
                }
            }
            if i == n - 1 && kept.len() > rest.len() {
                assert(kept[rest.len() as int] == i);
            }
        }
    }
}

/// Exactly the wanted conversations are taken over into the list, each once and in the order they
/// came in.
pub proof fn law_wanted_conversations_are_taken_over(
    convs: Seq<Conversation>,
    facts: Seq<ProjectFacts>,
    show_deleted_projects: bool,
)
    requires
        convs.len() <= usize::MAX,
    ensures
        ({
            let kept = admitted(convs, facts, show_deleted_projects);
            &&& forall|k: int| 0 <= k < kept.len() ==> (#[trigger] kept[k]) < convs.len()
            &&& forall|k: int, l: int|
                0 <= k < l < kept.len() ==> (#[trigger] kept[k]) < (#[trigger] kept[l])
            &&& forall|i: usize|
                i < convs.len() ==> (#[trigger] kept.contains(i) <==> is_wanted(
                    convs[i as int],
                    facts[i as int],
                    show_deleted_projects,
                ))
            &&& rearranged(convs, kept).len() == kept.len()
            &&& forall|k: int|
                0 <= k < kept.len() ==> #[trigger] rearranged(convs, kept)[k]
                    == convs[kept[k] as int]
        }),
{
    let kept = admitted(convs, facts, show_deleted_projects);
    if show_deleted_projects {
        assert forall|i: usize| i < convs.len() implies #[trigger] kept.contains(i) by {
            assert(kept[i as int] == i);
        }
    } else {
        lemma_present_among(convs, facts, convs.len());
    }
}

/// A new dashboard holds the wanted conversations and lists all of them, with the first selected;
/// nothing is being read, typed or asked, and the settings are those it was made with.
pub proof fn law_new_dashboard_lists_the_wanted(
    tool: ToolName,
    convs: Seq<Conversation>,
    facts: Seq<ProjectFacts>,
    use_relative_time: bool,
    tool_display: ToolDisplayMode,
    show_thinking: bool,
    show_deleted_projects: bool,
    groups: Seq<ProjectGroup>,
)
    ensures
        ({
            let t = AppView::ready(
                tool,
                convs,
                facts,
                use_relative_time,
                tool_display,
                show_thinking,
                show_deleted_projects,
                groups,
            );
            let kept = admitted(convs, facts, show_deleted_projects);
            &&& t.conversations == rearranged(convs, kept)
            &&& t.facts == rearranged(facts, kept)
            &&& t.filtered.len() == kept.len()
            &&& forall|k: int| 0 <= k < t.filtered.len() ==> #[trigger] t.filtered[k] == k as usize
            &&& kept.len() > 0 ==> t.selected == Some(0usize)
            &&& kept.len() == 0 ==> t.selected is None
            &&& t.loading_state == LoadingState::Ready
            &&& t.view_mode == ListViewMode::Grouped
            &&& t.groups == groups
            &&& t.query.len() == 0 && t.cursor_pos == 0 && t.viewing is None && t.status is None
            &&& t.preview_visible && !t.single_file_mode
            &&& t.tool_display == tool_display && t.show_thinking == show_thinking
            &&& t.use_relative_time == use_relative_time
            &&& t.show_deleted_projects == show_deleted_projects
        }),
{
}

/// Conversations that come in while loading go behind those that are there, and all are listed;
/// the selection stays where it was, or is the first where there was none.
pub proof fn law_batches_go_behind(
    s: AppView,
    convs: Seq<Conversation>,
    facts: Seq<ProjectFacts>,
    groups: Seq<ProjectGroup>,
)
    requires
        s.wf(),
    ensures
        ({
            let t = s.appended(convs, facts, groups);
            let kept = admitted(convs, facts, s.show_deleted_projects);
            let all = s.conversations + rearranged(convs, kept);
            &&& t.conversations == all
            &&& t.facts == s.facts + rearranged(facts, kept)
            &&& t.filtered.len() == all.len()
            &&& forall|k: int| 0 <= k < t.filtered.len() ==> #[trigger] t.filtered[k] == k as usize
            &&& s.selected is Some ==> t.selected == s.selected
            &&& s.selected is None && all.len() > 0 ==> t.selected == Some(0usize)
            &&& t.loading_state == (LoadingState::Loading { loaded: all.len() as usize })
            &&& t.query == s.query && t.view_mode == s.view_mode && t.viewing == s.viewing
        }),
{
}

/// Once everything is loaded, the same conversations are there, newest first and each with its
/// position written into it, together with what is known of its project. Without a query all of
/// them are listed and the first is selected.
pub proof fn law_loading_ends_with_all_listed(s: AppView, groups: Seq<ProjectGroup>, i: int)
    requires
        s.wf(),
        s.fits_machine(),
        0 <= i < s.conversations.len(),
    ensures
        ({
            let t = s.loaded(groups);
            let order = recency_order(s.conversations);
            &&& t.loading_state == LoadingState::Ready
            &&& t.conversations.len() == s.conversations.len()
            &&& order.contains(i as usize)
            &&& order.no_duplicates()
            &&& t.conversations[i] == (Conversation {
                index: i as usize,
                ..s.conversations[order[i] as int]
            })
            &&& t.facts[i] == s.facts[order[i] as int]
            &&& s.query.len() == 0 ==> t.filtered.len() == s.conversations.len() && t.filtered[i]
                == i as usize && t.selected == Some(0usize)
            &&& s.query.len() > 0 ==> t.filtered == s.filtered && t.selected == s.selected
            &&& t.query == s.query && t.view_mode == s.view_mode
        }),
{
    reveal(list_fits);
    law_newest_first_is_the_same_conversations(s.conversations);
}

proof fn lemma_indices_without_is_filter(s: Seq<usize>, gone: usize)
    ensures
        indices_without(s, gone) == s.filter(|i: usize| i != gone).map_values(
            |i: usize|
                if i > gone {
                    (i - 1) as usize
                } else {
                    i
                },
        ),
    decreases s.len(),
{
    reveal(Seq::filter);
    let keep = |i: usize| i != gone;
    let shift = |i: usize|
        if i > gone {
            (i - 1) as usize
        } else {
            i
        };
    if s.len() == 0 {
        assert(indices_without(s, gone) =~= s.filter(keep).map_values(shift));
    } else {
        lemma_indices_without_is_filter(s.drop_last(), gone);
        assert(indices_without(s, gone) =~= s.filter(keep).map_values(shift));
    }
}

/// Deleting takes out the conversation that is shown as selected and no other: the others stay in
/// their order, what passed the filter but that one is still listed, each under its new position,
/// and the selection stays at its place in the list, or goes to the last where that was the
/// place.
pub proof fn law_deleting_takes_out_what_is_shown(
    s: AppView,
    groups: Seq<ProjectGroup>,
    gone: usize,
)
    requires
        s.wf(),
        is_shown_selected(s, gone),
    ensures
        ({
            let t = s.deletion_finished(true, groups);
            let p = gone as int;
            &&& t.conversations == s.conversations.take(p) + s.conversations.skip(p + 1)
            &&& t.facts == s.facts.take(p) + s.facts.skip(p + 1)
            &&& t.filtered == s.filtered.filter(|i: usize| i != gone).map_values(
                |i: usize|
                    if i > gone {
                        (i - 1) as usize
                    } else {
                        i
                    },
            )
            &&& t.viewing is None
            &&& t.query == s.query && t.view_mode == s.view_mode
            &&& t.filtered.len() == 0 ==> t.selected is None
            &&& s.selected matches Some(k) ==> {
                &&& k < t.filtered.len() ==> t.selected == Some(k)
                &&& k >= t.filtered.len() > 0 ==> t.selected == Some(
                    (t.filtered.len() - 1) as usize,
                )
            }
            &&& s.deletion_finished(false, groups) == s
        }),
{
    law_selection_is_what_is_shown(s, gone, 0);
    crate::tui::app::law_selected_conversation_is_listed(s);
    lemma_indices_without_is_filter(s.filtered, gone);
    reveal(list_fits);
    let p = gone as int;
    let t = s.deletion_finished(true, groups);
    assert(s.conversations.remove(p) =~= s.conversations.take(p) + s.conversations.skip(p + 1));
    assert(s.facts.remove(p) =~= s.facts.take(p) + s.facts.skip(p + 1));
}

proof fn lemma_headers_among(
    groups: Seq<ProjectGroup>,
    expanded: Set<PathId>,
    filtered: Seq<usize>,
    m: nat,
    n: nat,
    rows: Seq<Row>,
)
    requires
        m < n <= groups.len() <= usize::MAX,
        rows.len() <= usize::MAX,
        rows_among(groups, expanded, false, filtered, n).is_prefix_of(rows),
    ensures
        ({
            let at = rows_among(groups, expanded, false, filtered, m).len();
            &&& at < rows_among(groups, expanded, false, filtered, n).len()
            &&& rows[at as int] == (Row::Header { group_idx: m as usize })
        }),
    decreases n,
{
    let k = (n - 1) as nat;
    let before = rows_among(groups, expanded, false, filtered, k);
    let own = group_rows(groups, k as int, expanded, false, filtered);
    let all = rows_among(groups, expanded, false, filtered, n);
    assert(all == before + own);
    assert(own[0] == (Row::Header { group_idx: k as usize }));
    if m == k {
        assert(rows[before.len() as int] == all[before.len() as int]);
    } else {
        assert(before =~= rows.subrange(0, before.len() as int)) by {
            assert forall|i: int| 0 <= i < before.len() implies before[i] == rows[i] by {
                assert(all[i] == rows.subrange(0, all.len() as int)[i]);
            }
        }
        lemma_headers_among(groups, expanded, filtered, m, k, rows);
    }
}

proof fn lemma_no_header_between(rows: Seq<Row>, n: nat, from: nat, to: nat)
    requires
        from <= to <= rows.len(),
        n > 0,
        forall|i: int| from <= i < to ==> !(#[trigger] rows[i] is Header),
    ensures
        nth_header(rows, n, from) == nth_header(rows, n, to),
    decreases to - from,
{
    if from < to {
        lemma_no_header_between(rows, n, from + 1, to);
    }
}

proof fn lemma_nth_header_is_of_group(
    groups: Seq<ProjectGroup>,
    expanded: Set<PathId>,
    filtered: Seq<usize>,
    m: nat,
    n: nat,
)
    requires
        m < groups.len() <= usize::MAX,
        n > 0,
        m + n <= groups.len(),
        rows_of(groups, expanded, false, filtered).len() <= usize::MAX,
    ensures
        ({
            let rows = rows_of(groups, expanded, false, filtered);
            let at = rows_among(groups, expanded, false, filtered, m).len();
            let found = nth_header(rows, n, at);
            &&& found is Some
            &&& found->0 < rows.len()
            &&& rows[found->0 as int] == (Row::Header { group_idx: (m + n - 1) as usize })
        }),
    decreases n,
{
    let rows = rows_of(groups, expanded, false, filtered);
    let at = rows_among(groups, expanded, false, filtered, m).len();
    assert(rows.subrange(0, rows.len() as int) =~= rows);
    lemma_headers_among(groups, expanded, filtered, m, groups.len(), rows);
    if n > 1 {
        let next = rows_among(groups, expanded, false, filtered, m + 1);
        let own = group_rows(groups, m as int, expanded, false, filtered);
        let before = rows_among(groups, expanded, false, filtered, m);
        assert(next == before + own);
        lemma_rows_prefix(groups, expanded, filtered, m + 1, groups.len());
        assert forall|i: int| at + 1 <= i < next.len() implies !(#[trigger] rows[i]
            is Header) by {
            assert(rows[i] == next[i]);
            assert(next[i] == own[i - before.len()]);
        }
        assert(next.len() <= rows.len());
        lemma_no_header_between(rows, (n - 1) as nat, at + 1, next.len());
        lemma_nth_header_is_of_group(groups, expanded, filtered, m + 1, (n - 1) as nat);
    }
}

proof fn lemma_rows_prefix(
    groups: Seq<ProjectGroup>,
    expanded: Set<PathId>,
    filtered: Seq<usize>,
    m: nat,
    n: nat,
)
    requires
        m <= n <= groups.len(),
    ensures
        ({
            let a = rows_among(groups, expanded, false, filtered, m);
            let b = rows_among(groups, expanded, false, filtered, n);
            a.len() <= b.len() && forall|i: int| 0 <= i < a.len() ==> #[trigger] b[i] == a[i]
        }),
    decreases n,
{
    if m < n {
        lemma_rows_prefix(groups, expanded, filtered, m, (n - 1) as nat);
    }
}

/// In the grouped list, while nothing is typed, a digit jumps to the header of the group that it
/// numbers, where there are so many groups.
#[verifier::rlimit(40)]
pub proof fn law_digits_jump_to_their_group(
    s: AppView,
    c: char,
    viewport_height: nat,
    at: u64,
    groups: Seq<ProjectGroup>,
)
    requires
        list_has_keys(s),
        s.view_mode == ListViewMode::Grouped,
        s.query.len() == 0,
        s.fits_machine(),
        s.rows == rows_of(s.groups, s.expanded, false, s.filtered),
        '1' <= c <= '9',
        c as int - '0' as int <= s.groups.len(),
    ensures
        ({
            let t = s.after_key(
                KeyCode::Char(c),
                KeyModifiers { control: false },
                viewport_height,
                at,
                groups,
            ).0;
            &&& t.selected_row is Some
            &&& t.selected_row->0 < s.rows.len()
            &&& s.rows[t.selected_row->0 as int] == (Row::Header {
                group_idx: (c as int - '1' as int) as usize,
            })
            &&& t == (AppView { selected_row: t.selected_row, preview_scroll: 0, ..s })
        }),
{
    let n = (c as int - '0' as int) as nat;
    lemma_nth_header_is_of_group(s.groups, s.expanded, s.filtered, 0, n);
    assert(crate::tui::model::group_number(c) == n);
}

/// Where no group was expanded, putting groups in place expands the first where it has a path;
/// else what was expanded stays so. The rows are then those of the groups, and the selected row
/// stays where it is inside them, else it is the first.
pub proof fn law_groups_are_put_in_place(s: AppView, groups: Seq<ProjectGroup>)
    ensures
        ({
            let t = s.regrouped(groups);
            let none = s.expanded == Set::<PathId>::empty();
            &&& t.groups == groups
            &&& none && groups.len() > 0 && groups[0].canonical_path is Some
                ==> t.expanded.contains(path_id(groups[0].canonical_path->0@))
            &&& !none ==> t.expanded == s.expanded
            &&& t.rows == rows_of(groups, t.expanded, s.query.len() > 0, s.filtered)
            &&& t.rows.len() == 0 ==> t.selected_row is None
            &&& t.rows.len() > 0 && s.selected_row is Some && s.selected_row->0 < t.rows.len()
                ==> t.selected_row == s.selected_row
            &&& t.rows.len() > 0 && !(s.selected_row is Some && s.selected_row->0 < t.rows.len())
                ==> t.selected_row == Some(0usize)
            &&& t.conversations == s.conversations && t.filtered == s.filtered && t.selected
                == s.selected && t.query == s.query
        }),
{
}

/// After Tab, Shift+Tab and `*` in the grouped list, the rows are those of the groups with what
/// is then expanded.
#[verifier::rlimit(40)]
pub proof fn law_rows_follow_what_is_expanded(
    s: AppView,
    code: KeyCode,
    viewport_height: nat,
    at: u64,
    groups: Seq<ProjectGroup>,
)
    requires
        list_has_keys(s),
        s.view_mode == ListViewMode::Grouped,
        code == KeyCode::Tab || code == KeyCode::BackTab || code == KeyCode::Char('*'),
    ensures
        ({
            let t = s.after_key(
                code,
                KeyModifiers { control: false },
                viewport_height,
                at,
                groups,
            ).0;
            t == s || t.rows == rows_of(t.groups, t.expanded, t.query.len() > 0, t.filtered)
        }),
{
}

/// A dashboard that conversations are still to come into is empty and loading, with the grouped
/// list and the preview pane shown and the settings it was made with.
pub proof fn law_loading_dashboard_is_empty(
    tool: ToolName,
    use_relative_time: bool,
    tool_display: ToolDisplayMode,
    show_thinking: bool,
    show_deleted_projects: bool,
)
    ensures
        ({
            let t = AppView::empty(
                tool,
                use_relative_time,
                tool_display,
                show_thinking,
                show_deleted_projects,
            );
            &&& t.conversations.len() == 0 && t.facts.len() == 0 && t.filtered.len() == 0
            &&& t.selected is None && t.query.len() == 0 && t.cursor_pos == 0
            &&& t.loading_state == (LoadingState::Loading { loaded: 0 })
            &&& t.dialog_mode == DialogMode::Closed
            &&& t.viewing is None && t.status is None && t.preview is None
            &&& t.view_mode == ListViewMode::Grouped && t.preview_visible
            &&& t.pane_focus == PaneFocus::List
            &&& !t.single_file_mode && !t.show_timing
            &&& t.use_relative_time == use_relative_time && t.tool_display == tool_display
            &&& t.show_thinking == show_thinking && t.show_deleted_projects
                == show_deleted_projects
        }),
{
}

/// A dashboard for a single file reads that file, and holds the conversation in it where there
/// is one.
pub proof fn law_single_file_is_read(
    tool: ToolName,
    path: Seq<char>,
    convs: Seq<Conversation>,
    facts: Seq<ProjectFacts>,
    use_relative_time: bool,
    tool_display: ToolDisplayMode,
    show_thinking: bool,
)
    ensures
        ({
            let t = AppView::single_file(
                tool,
                path,
                convs,
                facts,
                use_relative_time,
                tool_display,
                show_thinking,
            );
            &&& t.single_file_mode
            &&& t.viewing is Some
            &&& t.viewing->0.conversation_path == path
            &&& t.viewing->0.tool_display == tool_display
            &&& t.viewing->0.show_thinking == show_thinking
            &&& t.viewing->0.search_mode == ViewSearchMode::Off
            &&& t.conversations == convs && t.facts == facts
            &&& t.filtered.len() == convs.len()
            &&& convs.len() > 0 ==> t.selected == Some(0usize)
            &&& t.loading_state == LoadingState::Ready
            &&& t.view_mode == ListViewMode::Flat && !t.preview_visible
        }),
{
}

/// A message that is told, a query that is prepared for the search, and the way back to the list
/// each change that and nothing else.
pub proof fn law_small_steps_change_one_thing(
    s: AppView,
    message: Seq<char>,
    at: u64,
    normalized: Seq<char>,
)
    ensures
        s.telling(message, at) == (AppView { status: Some((message, at)), ..s }),
        s.words_refreshed(normalized) == (AppView { query_words: words(normalized), ..s }),
        s.back_to_list() == (AppView { viewing: None, ..s }),
{
}

proof fn lemma_searchable_without(
    s: Seq<SearchableConversation>,
    gone: usize,
)
    ensures
        searchable_without(s, gone) == s.filter(
            |c: SearchableConversation| c.index != gone,
        ).map_values(
            |c: SearchableConversation| SearchableConversation {
                index: if c.index > gone {
                    (c.index - 1) as usize
                } else {
                    c.index
                },
                ..c
            },
        ),
    decreases s.len(),
{
    reveal(Seq::filter);
    let keep = |c: SearchableConversation| c.index != gone;
    let shift = |c: SearchableConversation|
        SearchableConversation {
            index: if c.index > gone {
                (c.index - 1) as usize
            } else {
                c.index
            },
            ..c
        };
    if s.len() == 0 {
        assert(searchable_without(s, gone) =~= s.filter(keep).map_values(
            shift,
        ));
    } else {
        lemma_searchable_without(s.drop_last(), gone);
        assert(searchable_without(s, gone) =~= s.filter(keep).map_values(
            shift,
        ));
    }
}

/// With a conversation its search data goes, and that of the others stays, each under its new
/// position.
pub proof fn law_search_data_follows_the_list(s: AppView, gone: usize)
    ensures
        s.taken_out(gone).searchable == s.searchable.filter(
            |c: SearchableConversation| c.index != gone,
        ).map_values(
            |c: SearchableConversation| SearchableConversation {
                index: if c.index > gone {
                    (c.index - 1) as usize
                } else {
                    c.index
                },
                ..c
            },
        ),
{
    lemma_searchable_without(s.searchable, gone);
}

} // verus!
